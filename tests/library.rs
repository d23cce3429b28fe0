use rest_bridge::config::{
    default_endpoint_method, default_logging_format, default_logging_level,
    default_parameter_kind, default_parameter_required, default_server_listen,
    default_server_path_prefix, log_level, Config, Endpoint, HttpMethod, LogLevel, Logging,
    ParamKind, Parameter, ServerConfig,
};
use rest_bridge::gateway::prepare_request;
use rest_bridge::params::{resolve_request, ParamSource, RawParam, Variables};
use rest_bridge::request::{forward_headers, request_json, variables_json, Headers};
use rest_bridge::response::{
    build_error_response, envelope_json, reconcile, ResponseEnvelope, UpstreamReply,
};
use rest_bridge::routes::{route_table, RouteError};
use serde_json::{Number, Value};

fn reading(text: &str) -> RawParam {
    let as_double = match text.parse::<f64>() {
        Ok(f) => match Number::from_f64(f) {
            Some(n) => Ok(n.to_string()),
            None => Err(format!("{} is not a finite number", text)),
        },
        Err(e) => Err(e.to_string()),
    };
    RawParam::new(text.to_string(), as_double)
}

fn src(pairs: Vec<(&str, &str)>) -> ParamSource {
    let mut s = ParamSource::new();
    for (k, v) in pairs {
        s.insert(k.to_string(), reading(v));
    }
    s
}

fn param(from: &str, to: Option<&str>, kind: ParamKind, required: bool) -> Parameter {
    Parameter { from: from.to_string(), to: to.map(|t| t.to_string()), required, kind }
}

fn ep(
    query: Option<Vec<Parameter>>,
    path: Option<Vec<Parameter>>,
    body: Option<Vec<Parameter>>,
) -> Endpoint {
    Endpoint {
        path: "/users".to_string(),
        method: HttpMethod::GET,
        pq_id: "abc".to_string(),
        query_params: query,
        path_arguments: path,
        body_params: body,
    }
}

fn coerce(kind: ParamKind, text: &str) -> Result<String, String> {
    kind.from_str(&reading(text))
}

fn env(data: Option<&str>, errors: Option<Vec<&str>>) -> ResponseEnvelope {
    ResponseEnvelope {
        data: data.map(|d| d.to_string()),
        errors: errors.map(|v| v.into_iter().map(|m| m.to_string()).collect()),
        extensions: None,
    }
}

fn answered(status: u16, envelope: ResponseEnvelope) -> UpstreamReply {
    UpstreamReply::Answered { status, headers: Headers::new(), envelope }
}

fn names(h: &Headers) -> Vec<(String, Vec<u8>)> {
    (0..h.len()).map(|i| {
        let (n, v) = h.entry(i);
        (n.clone(), v.clone())
    }).collect()
}

const EXTENSIONS: &str = "\"extensions\":{\"persistedQuery\":{\"sha256Hash\":\"abc\",\"version\":1}}";

#[test]
fn status_stays_200_for_data_only() {
    let r = reconcile(answered(200, env(Some("{\"x\":1}"), None)));
    assert_eq!(r.status, 200);
    assert_eq!(r.body, "{\"data\":{\"x\":1}}");
}

#[test]
fn status_500_for_errors_without_data() {
    let r = reconcile(answered(200, env(None, Some(vec!["boom"]))));
    assert_eq!(r.status, 500);
    assert_eq!(r.body, "{\"errors\":[{\"message\":\"boom\"}]}");
}

#[test]
fn status_206_for_errors_with_data() {
    let r = reconcile(answered(200, env(Some("{\"x\":1}"), Some(vec!["boom"]))));
    assert_eq!(r.status, 206);
    assert_eq!(r.body, "{\"data\":{\"x\":1},\"errors\":[{\"message\":\"boom\"}]}");
}

#[test]
fn undecodable_answer_gives_500() {
    let error = serde_json::from_str::<Value>("not json").unwrap_err().to_string();
    let r = reconcile(UpstreamReply::Undecodable { error: error.clone() });
    assert_eq!(r.status, 500);
    assert_eq!(r.headers.len(), 0);
    assert_eq!(r.body, format!("{{\"data\":null,\"errors\":[{{\"message\":\"{}\"}}]}}", error));
}

#[test]
fn unreachable_service_gives_500() {
    let error = "error sending request: connection refused";
    let r = reconcile(UpstreamReply::Failed { error: error.to_string() });
    assert_eq!(r.status, 500);
    assert_eq!(
        r.body,
        "{\"data\":null,\"errors\":[{\"message\":\"error sending request: connection refused\"}]}"
    );
}

#[test]
fn non_200_status_passes_through() {
    let r = reconcile(answered(400, env(Some("1"), Some(vec!["bad"]))));
    assert_eq!(r.status, 400);
    let r = reconcile(answered(503, env(None, None)));
    assert_eq!(r.status, 503);
    assert_eq!(r.body, "{}");
}

#[test]
fn empty_error_list_keeps_200() {
    let r = reconcile(answered(200, env(None, Some(vec![]))));
    assert_eq!(r.status, 200);
    assert_eq!(r.body, "{\"errors\":[]}");
}

#[test]
fn envelope_members_in_order() {
    let e = ResponseEnvelope {
        data: Some("null".to_string()),
        errors: Some(vec!["a".to_string(), "b\"c".to_string()]),
        extensions: Some("{\"cost\":3}".to_string()),
    };
    assert_eq!(
        envelope_json(&e),
        "{\"data\":null,\"errors\":[{\"message\":\"a\"},{\"message\":\"b\\\"c\"}],\"extensions\":{\"cost\":3}}"
    );
}

#[test]
fn answer_headers_lose_body_framing() {
    let mut h = Headers::new();
    h.append("content-type".to_string(), b"application/json".to_vec());
    h.append("transfer-encoding".to_string(), b"chunked".to_vec());
    h.append("content-length".to_string(), b"12".to_vec());
    h.append("x-trace".to_string(), b"1".to_vec());
    h.append("x-trace".to_string(), b"2".to_vec());
    let r = reconcile(UpstreamReply::Answered { status: 200, headers: h, envelope: env(None, None) });
    assert_eq!(
        names(&r.headers),
        vec![
            ("content-type".to_string(), b"application/json".to_vec()),
            ("x-trace".to_string(), b"1".to_vec()),
            ("x-trace".to_string(), b"2".to_vec()),
        ]
    );
}

#[test]
fn error_response_escapes_message() {
    let r = build_error_response(400, "say \"hi\"\n".to_string());
    assert_eq!(r.status, 400);
    assert_eq!(r.body, "{\"data\":null,\"errors\":[{\"message\":\"say \\\"hi\\\"\\n\"}]}");
}

#[test]
fn body_value_wins_over_query_value() {
    let e = ep(
        Some(vec![param("id", None, ParamKind::STRING, false)]),
        None,
        Some(vec![param("id", None, ParamKind::STRING, false)]),
    );
    let vars = resolve_request(&e, &src(vec![("id", "q")]), &src(vec![]), &src(vec![("id", "b")]))
        .ok()
        .unwrap();
    assert_eq!(vars.len(), 1);
    assert_eq!(vars.get(&"id".to_string()).unwrap(), "\"b\"");
}

#[test]
fn path_value_wins_over_query_value() {
    let e = ep(
        Some(vec![param("id", None, ParamKind::INT, true)]),
        Some(vec![param("key", Some("id"), ParamKind::INT, true)]),
        None,
    );
    let vars =
        resolve_request(&e, &src(vec![("id", "1")]), &src(vec![("key", "2")]), &src(vec![]))
            .ok()
            .unwrap();
    assert_eq!(vars.get(&"id".to_string()).unwrap(), "2");
}

#[test]
fn missing_required_path_argument_gives_400() {
    let e = ep(None, Some(vec![param("user", None, ParamKind::STRING, true)]), None);
    let r = prepare_request(&e, Headers::new(), &src(vec![("user", "x")]), &src(vec![]), &src(vec![]))
        .err()
        .unwrap();
    assert_eq!(r.status, 400);
    assert_eq!(
        r.body,
        "{\"data\":null,\"errors\":[{\"message\":\"Missing required parameter: user\"}]}"
    );
}

#[test]
fn first_failure_decides_the_error() {
    let e = ep(
        Some(vec![param("n", None, ParamKind::INT, true)]),
        None,
        Some(vec![param("b", None, ParamKind::STRING, true)]),
    );
    let r = prepare_request(&e, Headers::new(), &src(vec![("n", "x")]), &src(vec![]), &src(vec![]))
        .err()
        .unwrap();
    assert_eq!(
        r.body,
        "{\"data\":null,\"errors\":[{\"message\":\"invalid digit found in string\"}]}"
    );
}

#[test]
fn optional_parameter_absent_is_skipped() {
    let e = ep(Some(vec![param("page", None, ParamKind::INT, false)]), None, None);
    let req = prepare_request(&e, Headers::new(), &src(vec![]), &src(vec![]), &src(vec![]))
        .ok()
        .unwrap();
    assert_eq!(req.body, format!("{{{}}}", EXTENSIONS));
}

#[test]
fn preparing_twice_gives_the_same_body() {
    let e = ep(
        Some(vec![param("a", None, ParamKind::STRING, true), param("n", Some("count"), ParamKind::INT, true)]),
        None,
        Some(vec![param("flag", None, ParamKind::BOOLEAN, true)]),
    );
    let q = src(vec![("a", "x"), ("n", "5")]);
    let b = src(vec![("flag", "true")]);
    let first = prepare_request(&e, Headers::new(), &q, &src(vec![]), &b).ok().unwrap();
    let second = prepare_request(&e, Headers::new(), &q, &src(vec![]), &b).ok().unwrap();
    assert_eq!(first.body, second.body);
    assert_eq!(
        first.body,
        format!("{{\"variables\":{{\"a\":\"x\",\"count\":5,\"flag\":true}},{}}}", EXTENSIONS)
    );
}

#[test]
fn coercion_of_integers() {
    assert_eq!(coerce(ParamKind::INT, "42"), Ok("42".to_string()));
    assert_eq!(coerce(ParamKind::INT, "+007"), Ok("7".to_string()));
    assert_eq!(coerce(ParamKind::INT, "-9223372036854775808"), Ok("-9223372036854775808".to_string()));
    assert_eq!(
        coerce(ParamKind::INT, "9223372036854775808"),
        Err("number too large to fit in target type".to_string())
    );
    assert_eq!(coerce(ParamKind::INT, ""), Err("cannot parse integer from empty string".to_string()));
    assert_eq!(coerce(ParamKind::INT, "1.5"), Err("invalid digit found in string".to_string()));
}

#[test]
fn coercion_of_booleans() {
    assert_eq!(coerce(ParamKind::BOOLEAN, "true"), Ok("true".to_string()));
    assert_eq!(coerce(ParamKind::BOOLEAN, "false"), Ok("false".to_string()));
    assert_eq!(
        coerce(ParamKind::BOOLEAN, "True"),
        Err("provided string was not `true` or `false`".to_string())
    );
}

#[test]
fn coercion_of_floats() {
    assert_eq!(coerce(ParamKind::FLOAT, "1.5"), Ok("1.5".to_string()));
    assert_eq!(coerce(ParamKind::FLOAT, "abc"), Err("invalid float literal".to_string()));
}

#[test]
fn coercion_of_strings() {
    assert_eq!(coerce(ParamKind::STRING, "a\"b\\c"), Ok("\"a\\\"b\\\\c\"".to_string()));
    assert_eq!(coerce(ParamKind::STRING, "12"), Ok("\"12\"".to_string()));
}

#[test]
fn coercion_of_json_documents() {
    assert_eq!(coerce(ParamKind::OBJECT, "{\"b\": 1, \"a\": [true]}"), Ok("{\"a\":[true],\"b\":1}".to_string()));
    assert_eq!(coerce(ParamKind::ARRAY, "[1, 2 ]"), Ok("[1,2]".to_string()));
    let error = serde_json::from_str::<Value>("{").unwrap_err().to_string();
    assert_eq!(coerce(ParamKind::OBJECT, "{"), Err(error));
}

#[test]
fn variables_are_left_out_when_empty() {
    let vars = Variables::new();
    assert_eq!(request_json("abc", &vars), format!("{{{}}}", EXTENSIONS));
}

#[test]
fn variables_keep_their_first_position() {
    let mut vars = Variables::new();
    vars.insert("x".to_string(), "1".to_string());
    vars.insert("y".to_string(), "2".to_string());
    vars.insert("x".to_string(), "3".to_string());
    assert_eq!(vars.len(), 2);
    assert_eq!(variables_json(&vars), "{\"x\":3,\"y\":2}");
    assert_eq!(
        request_json("abc", &vars),
        format!("{{\"variables\":{{\"x\":3,\"y\":2}},{}}}", EXTENSIONS)
    );
}

#[test]
fn forwarded_headers_are_rewritten() {
    let mut h = Headers::new();
    h.append("host".to_string(), b"gateway:4000".to_vec());
    h.append("content-type".to_string(), b"text/plain".to_vec());
    h.append("authorization".to_string(), b"Bearer t".to_vec());
    let out = forward_headers(h);
    assert_eq!(
        names(&out),
        vec![
            ("authorization".to_string(), b"Bearer t".to_vec()),
            ("content-type".to_string(), b"application/json".to_vec()),
            ("apollographql-client-name".to_string(), b"rest_bridge".to_vec()),
            ("accept".to_string(), b"*/*".to_vec()),
        ]
    );
}

fn config(endpoints: Vec<(HttpMethod, &str)>) -> Config {
    Config {
        common: ServerConfig {
            listen: default_server_listen(),
            path_prefix: default_server_path_prefix(),
            graphql_endpoint: "http://localhost:8080/graphql".to_string(),
            logging: None,
        },
        endpoints: endpoints
            .into_iter()
            .map(|(method, path)| Endpoint {
                path: path.to_string(),
                method,
                pq_id: "q".to_string(),
                query_params: None,
                path_arguments: None,
                body_params: None,
            })
            .collect(),
    }
}

#[test]
fn routes_are_prefixed() {
    let routes = route_table(&config(vec![(HttpMethod::GET, "/a"), (HttpMethod::POST, "/a")]))
        .ok()
        .unwrap();
    assert_eq!(routes.len(), 2);
    assert_eq!(routes[0].path, "/api/v1/a");
    assert_eq!(routes[1].method, HttpMethod::POST);
    assert_eq!(routes[1].endpoint, 1);
}

#[test]
fn duplicate_route_is_refused() {
    let r = route_table(&config(vec![
        (HttpMethod::GET, "/a"),
        (HttpMethod::PUT, "/b"),
        (HttpMethod::GET, "/a"),
    ]));
    match r {
        Err(RouteError::Duplicate { method, path }) => {
            assert_eq!(method, HttpMethod::GET);
            assert_eq!(path, "/api/v1/a");
        }
        Ok(_) => panic!("duplicate accepted"),
    }
}

#[test]
fn log_level_defaults_to_info() {
    let mut c = config(vec![]);
    assert_eq!(log_level(&c), LogLevel::INFO);
    c.common.logging = Some(Logging { format: default_logging_format(), level: LogLevel::DEBUG });
    assert_eq!(log_level(&c), LogLevel::DEBUG);
}

#[test]
fn configuration_defaults() {
    assert_eq!(default_endpoint_method(), HttpMethod::GET);
    assert!(!default_parameter_required());
    assert_eq!(default_parameter_kind(), ParamKind::STRING);
    assert_eq!(default_server_path_prefix(), "/api/v1");
    assert_eq!(default_server_listen(), "127.0.0.1:4000");
    assert_eq!(default_logging_format(), "pretty");
    assert_eq!(default_logging_level(), LogLevel::INFO);
}

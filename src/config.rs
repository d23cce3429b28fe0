//! The configuration model: the server settings and the endpoints it exposes.
use vstd::prelude::*;

verus! {

/// The HTTP method for the endpoint to accept.
#[derive(Clone, Copy, Debug, PartialEq, Eq, Structural)]
pub enum HttpMethod {
    GET,
    POST,
    PUT,
    PATCH,
    DELETE,
}

/// The log level that the server should use.
#[derive(Clone, Copy, Debug, PartialEq, Eq, Structural)]
pub enum LogLevel {
    TRACE,
    DEBUG,
    INFO,
    WARN,
    ERROR,
}

/// The kind of value a parameter is read as.
#[derive(Clone, Copy, Debug, PartialEq, Eq, Structural)]
pub enum ParamKind {
    INT,
    STRING,
    FLOAT,
    OBJECT,
    ARRAY,
    BOOLEAN,
}

#[derive(Clone, Debug, PartialEq)]
pub struct Config {
    /// The common configuration for the server
    pub common: ServerConfig,
    /// The list of endpoints that the server should expose
    pub endpoints: Vec<Endpoint>,
}

#[derive(Clone, Debug, PartialEq)]
pub struct ServerConfig {
    /// The address that the server should listen on
    pub listen: String,
    /// The prefix of every endpoint's path; `/api/v1` unless configured
    pub path_prefix: String,
    /// The GraphQL endpoint that requests are forwarded to
    pub graphql_endpoint: String,
    /// Basic logging configuration
    pub logging: Option<Logging>,
}

#[derive(Clone, Debug, PartialEq)]
pub struct Endpoint {
    /// The path that the endpoint is exposed on, below the prefix
    pub path: String,
    /// The method that the endpoint accepts
    pub method: HttpMethod,
    /// The persisted query id that the endpoint forwards to
    pub pq_id: String,
    /// The query parameters that the endpoint reads
    pub query_params: Option<Vec<Parameter>>,
    /// The path arguments that the endpoint reads
    pub path_arguments: Option<Vec<Parameter>>,
    /// The top-level body fields that the endpoint reads
    pub body_params: Option<Vec<Parameter>>,
}

#[derive(Clone, Debug, PartialEq)]
pub struct Parameter {
    /// The name the caller uses, e.g. `id` in `/user/:id` or `/user/?id=1234`
    pub from: String,
    /// The variable name the operation uses, when it differs from `from`
    pub to: Option<String>,
    /// Whether the parameter must be present
    pub required: bool,
    /// The kind of value the parameter is read as
    pub kind: ParamKind,
}

#[derive(Clone, Debug, PartialEq)]
pub struct Logging {
    /// The format that the logs are written in
    pub format: String,
    /// The log level that the server uses
    pub level: LogLevel,
}

impl Parameter {
    /// The variable name that the parameter's value is stored under.
    pub open spec fn target(&self) -> Seq<char> {
        match self.to {
            Some(t) => t@,
            None => self.from@,
        }
    }
}

/// The parameters of an optional list, none where the list is absent.
pub open spec fn listed(params: Option<Vec<Parameter>>) -> Seq<Parameter> {
    match params {
        Some(v) => v@,
        None => Seq::empty(),
    }
}

pub fn default_endpoint_method() -> (r: HttpMethod)
    ensures
        r == HttpMethod::GET,
{
    HttpMethod::GET
}

pub fn default_parameter_required() -> (r: bool)
    ensures
        !r,
{
    false
}

pub fn default_parameter_kind() -> (r: ParamKind)
    ensures
        r == ParamKind::STRING,
{
    ParamKind::STRING
}

pub fn default_server_path_prefix() -> (r: String)
    ensures
        r@ == "/api/v1"@,
{
    "/api/v1".to_string()
}

pub fn default_server_listen() -> (r: String)
    ensures
        r@ == "127.0.0.1:4000"@,
{
    "127.0.0.1:4000".to_string()
}

pub fn default_logging_format() -> (r: String)
    ensures
        r@ == "pretty"@,
{
    "pretty".to_string()
}

pub fn default_logging_level() -> (r: LogLevel)
    ensures
        r == LogLevel::INFO,
{
    LogLevel::INFO
}

/// The level the server logs at: the configured one, or `INFO` where logging
/// is not configured.
pub fn log_level(config: &Config) -> (r: LogLevel)
    ensures
        r == match config.common.logging {
            Some(l) => l.level,
            None => LogLevel::INFO,
        },
{
    match &config.common.logging {
        Some(l) => l.level,
        None => LogLevel::INFO,
    }
}

} // verus!

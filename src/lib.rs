//! A gateway core that turns configured REST-style calls into persisted-query
//! requests against a GraphQL service, and turns the service's answer back into
//! an HTTP response.
pub mod config;
pub mod entries;
pub mod gateway;
pub mod json;
pub mod params;
pub mod request;
pub mod response;
pub mod routes;

//! A minimal HTTP diagnostic service: one route, `GET /test`, answered
//! with status 200 and a JSON body holding a fixed message, a fixed
//! status and the current RFC 3339 timestamp.
//!
//! This crate holds the service's behaviour — the route table, dispatch,
//! the handler, the body serialization and the timestamp grammar — as
//! verified code; a thin binary wraps it in an HTTP framework and a
//! listener.

pub mod body;
pub mod bootstrap;
mod clock;
pub mod response;
pub mod rfc3339;
pub mod routes;

pub use response::Response;
pub use routes::{
    configure_test_routes, handle_test, test_endpoint, Handler, Method, Route, RouteTable,
};

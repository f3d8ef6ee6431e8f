//! HTTP: methods, status codes, headers, bodies, requests and responses.

pub mod body;
pub mod middleware;
pub mod request;
pub mod response;
pub mod types;

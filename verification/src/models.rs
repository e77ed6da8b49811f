//! The bodies of requests and responses.
pub mod request;
pub mod response;

//! What happens to a request before it is served.
pub mod auth;

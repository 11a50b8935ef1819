pub mod auth;
pub mod bytes;
pub mod clock;
pub mod config;
pub mod db;
pub mod error;
pub mod json;
pub mod middleware;
pub mod numerals;
pub mod paths;
pub mod rate_limiter;
pub mod routes;
pub mod server;
pub mod startup;
pub mod templates;
pub mod text;
pub mod webhook;

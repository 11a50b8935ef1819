//! What each address of the server does.
pub mod git_auth;
pub mod git_http;
pub mod home;
pub mod new_repo;
pub mod repo;
pub mod user;
pub mod webhooks;

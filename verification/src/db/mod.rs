//! What is stored, in the database and in the git repositories, and how it is read.
pub mod git;
pub mod models;
pub mod queries;

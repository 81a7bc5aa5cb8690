//! The rules of the command-line clients and of the server's start-up.

pub mod eval;
pub mod isearch;
pub mod query;
pub mod server;

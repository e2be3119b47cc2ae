//! A small file host: request paths are resolved against a root directory,
//! optionally rewritten by a table of literal substitutions, and answered
//! with the file's bytes or a fixed not-found body.

pub mod text;
pub mod rewrite;
pub mod resolver;
pub mod responder;
pub mod config;

//! A RESTful interface over an existing PostgreSQL database: the query-string
//! rules that turn a request into SQL text, and the statements the handlers run.

pub mod text;

pub mod postgresql;
pub mod postgres;
pub mod api;
pub mod server;

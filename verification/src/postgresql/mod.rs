//! The PostgreSQL side: query-string rules and the statements the handlers run.

pub mod commands;
pub mod laws;
pub mod statements;

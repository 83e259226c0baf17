//! The strict variant of the query-string rules.

pub mod commands;
pub mod laws;

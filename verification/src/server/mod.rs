//! The web front: the greeting application.

pub mod app;

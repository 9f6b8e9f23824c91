//! A GPU rental marketplace: the books, the rules and the wire vocabulary.

pub mod agent;
pub mod api;
pub mod bench;
pub mod benchmark;
pub mod billing;
pub mod cli;
pub mod db;
pub mod error;
pub mod laws;
pub mod lightning;
pub mod mlx;
pub mod model;
pub mod money;
pub mod routes;
pub mod runtime;
pub mod state;
pub mod text;

//! A line-oriented command server core: declarative argument parsing,
//! command dispatch, and the bookkeeping of live connections.
pub mod text;
pub mod definition;
pub mod error;
pub mod parsed;
pub mod parser;
pub mod commands;
pub mod server;

//! The rules of tmuxlet-server: an OpenAI-compatible HTTP server that tries
//! several backends in turn.
//!
//! Nothing here reads a file, a clock or a socket. What is read is handed in as
//! plain values, and what is to be done is handed back as plain values.

pub mod auth;
pub mod backend;
pub mod config;
pub mod env;
pub mod http;
pub mod http_client;
pub mod json;
pub mod laws;
pub mod log;
pub mod names;
pub mod openai;
pub mod pty;
pub mod router;
pub mod startup;
pub mod text;
pub mod toml_doc;
pub mod typo;
pub mod wire;

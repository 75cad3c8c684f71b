//! What the operations of the library are for, each said of all inputs.

pub mod backend;
pub mod calls;
pub mod chain;
pub mod chat;
pub mod client;
pub mod config;
pub mod environment;
pub mod health;
pub mod openai;
pub mod results;
pub mod runs;
pub mod server;
pub mod service;
pub mod startup;
pub mod text;
pub mod values;

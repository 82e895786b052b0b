//! Verified core of an in-process automation driver for GPUI applications and the
//! command-line client that talks to it over newline-delimited JSON-RPC.

pub mod protocol;
pub mod json;
pub mod text;
pub mod tree;
pub mod registry;
pub mod codec;
pub mod picture;
pub mod cli;
pub mod server;
pub mod handlers;
pub mod render;
pub mod idle;
pub mod discovery;
pub mod typename;
pub mod laws;
pub mod report;
pub mod request;
pub mod nesting;

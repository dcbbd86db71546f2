//! Completion of HTTPie command lines from OpenAPI documents.
//!
//! A document is resolved into endpoints ([`openapi`]); a command line is
//! split into positioned words ([`tokens`]); and from the words, the cursor
//! and the registered APIs ([`config`]) the commands ([`command`]) decide
//! what to offer. Nothing here reads or writes files or the network: the
//! commands say what they need, and take what was read as plain values.

pub mod command;
pub mod config;
pub mod openapi;
pub mod scan;
pub mod text;
pub mod tokens;

pub use config::Config;

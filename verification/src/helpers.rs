//! Parsing and building of requests.
pub mod directive;
pub mod render;
pub mod response;
pub mod status;
pub mod http;
pub mod obfuscate;
pub mod path;
pub mod target;

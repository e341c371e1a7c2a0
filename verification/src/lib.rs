//! A template-driven HTTP request runner.
//!
//! A template holds one or more requests: a request line, headers and a
//! body, with directives in comments and Handlebars expressions. The
//! requests are rendered against a context, read into the frame that goes on
//! the wire, and run one after the other; what a response returns can be
//! captured into the context for the requests that follow.
//!
//! - [`text`]: the characters, lines and tokens of a text.
//! - [`context`]: the context, a YAML or JSON value.
//! - [`helpers::directive`]: the directives of a template block.
//! - [`helpers::render`]: from a template and a context to a text.
//! - [`helpers::http`]: from a rendered text to a request and its frame.
//! - [`helpers::obfuscate`]: the frame with its secrets masked.
//! - [`helpers::response`]: the response, and what is captured of it.
//! - [`helpers::status`]: the status of a response, for the eye.
//! - [`executor`]: the run of a chain of requests.
//! - [`models`]: the workspace, its requests and environments.
//! - [`errors`]: what can go wrong.
pub mod context;
pub mod errors;
pub mod executor;
pub mod helpers;
pub mod models;
pub mod text;

//! The text of a request as the user writes it.
use vstd::prelude::*;

verus! {

/// A template: the request line, the headers and the body of one or more
/// requests, with directives in comments and Handlebars expressions.
pub type Template = String;

} // verus!

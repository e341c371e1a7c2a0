//! How the program names itself to a server.
use vstd::prelude::*;

verus! {

/// The value of the `User-Agent` header where a template gives none.
pub const USER_AGENT: &'static str = "Rustaman";

} // verus!

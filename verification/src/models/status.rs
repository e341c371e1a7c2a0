//! Whether an entry of the workspace is in use.
use vstd::prelude::*;

verus! {

/// The state of a request or of an environment.
#[derive(Debug, Clone, Copy, PartialEq, Eq, Structural)]
pub enum Status {
    /// In use.
    Active,
    /// Made, and not yet named or edited.
    BeingCreated,
    /// Deleted; kept in the workspace and shown nowhere.
    Deleted,
}

} // verus!

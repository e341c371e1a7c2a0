//! The workspace: the requests and environments that the user keeps.
pub mod agent;
pub mod environment;
pub mod status;
pub mod template;
pub mod workspace;

pub use self::agent::USER_AGENT;
pub use self::environment::{Environment, Environments};
pub use self::status::Status;
pub use self::workspace::{Request, Workspace};

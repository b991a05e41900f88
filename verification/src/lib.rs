//! A client library for the Gemini protocol.

pub mod actor;
pub mod cert;
pub mod error;
pub mod header;
pub mod parse;
pub mod response;
pub mod robots;
pub mod status;
pub mod text;
pub mod url;
pub mod user_agent;

pub use actor::Actor;
pub use response::Response;
pub use robots::parse_robots;
pub use status::Status;
pub use user_agent::UserAgent;

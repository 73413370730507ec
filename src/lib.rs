//! A small multi-user line chat: the identity and wire types, the shared
//! registry of live sessions, the per-connection session state machine, and
//! the router that fans chat lines out to every other session.

pub mod args;
pub mod client;
pub mod registry;
pub mod response;
pub mod router;
pub mod scuffed_clone;
pub mod server;
pub mod server_friendly_string;
pub mod user;

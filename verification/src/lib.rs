//! Pairing of anonymous real-time clients into two-party rooms that last
//! until either side leaves.

pub mod assoc;
pub mod config;
pub mod ident;
pub mod messages;
pub mod registry;
pub mod server;
pub mod session;

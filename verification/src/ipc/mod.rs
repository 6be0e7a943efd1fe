//! The protocol between the command line and the daemon.
//!
//! Neither side touches a socket here. Each step names the operation that is
//! due, and goes on once it is told how the operation went.

pub mod client;
pub mod exchange;
pub mod server;

//! The command line client and the harness hook.
pub mod client;
pub mod dial;
pub mod hook;

//! Gatehouse: an approval broker for what agents want to do.
//!
//! An agent submits a request ([`proto::request`]). The policy ([`proto::policy`]) allows it, denies it
//! or has a human asked. A request that waits is released only by an approval
//! ([`proto::envelope`]) that is bound to its digest, under its nonce and within its time; strong
//! approvals are passkey assertions over a challenge derived from the request
//! ([`daemon::binding`]). Every decision goes into a hash-chained log ([`proto::audit_log`]).
//!
//! The library decides; sockets, files, clocks and processes are its callers'. Where the work
//! alternates with the outside, a function takes the state and an event and returns what to do.
pub mod codec;
pub mod daemon;
pub mod gate;
pub mod json;
pub mod laws;
pub mod mcp;
pub mod number;
pub mod proto;
pub mod text;
pub mod urls;

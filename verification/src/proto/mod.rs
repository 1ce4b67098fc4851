//! The canonical request format, approval envelopes, the policy, the audit log, the
//! messages on the sockets and the relay link, and well-known paths.
//!
//! Everything that feeds a digest is here, so that the daemon, the command line
//! and signers can never disagree about what was approved.
pub mod audit_log;
pub mod envelope;
pub mod ipc;
pub mod paths;
pub mod policy;
pub mod policy_file;
pub mod relay;
pub mod request;
pub mod wire;

//! The daemon: it holds what waits for approval, decides, and keeps the log.
pub mod apns;
pub mod audit;
pub mod binding;
pub mod body;
pub mod ceremony;
pub mod certs;
pub mod ctl;
pub mod ctx;
pub mod devices;
pub mod enroll;
pub mod ipc;
pub mod passkey;
pub mod pem;
pub mod phone;
pub mod relay;
pub mod relay_client;
pub mod server;
pub mod setup;
pub mod state;
pub mod web;

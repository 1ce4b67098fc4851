//! What holds of the library as a whole, put in terms of what goes in and what comes out.
pub mod approval;
pub mod client;
pub mod devices;
pub mod enroll;
pub mod files;
pub mod hook;
pub mod hub;
pub mod log;
pub mod mcp;
pub mod numbers;
pub mod operator;
pub mod page;
pub mod places;
pub mod policy;
pub mod release;
pub mod requests;
pub mod running;
pub mod setup;
pub mod submit;
pub mod texts;
pub mod values;

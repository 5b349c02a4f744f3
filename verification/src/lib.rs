//! Client library for the `CreateOS` Sandbox API: request construction, wire
//! decoding, retry and pagination policy, and sandbox lifecycle rules.

pub mod duration;
pub mod text;
pub mod json;
pub mod wire;
pub mod models;
pub mod transport;
pub mod error;
pub mod client;
pub mod stream;
pub mod call;
pub mod requests;
pub mod options;
pub mod instance;
pub mod services;
pub mod laws;

pub use duration::Duration;

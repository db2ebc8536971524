//! The TCP response plane.

pub mod client;
pub mod listener;
pub mod message;
pub mod server;

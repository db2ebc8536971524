//! Verified core of the Pagoda distributed runtime.

pub mod config;
pub mod dash;
pub mod dict;
pub mod discovery;
pub mod error;
pub mod ids;
pub mod json;
pub mod pipeline;
pub mod protocols;
pub mod runtime;
pub mod service;
pub mod servicegroup;
pub mod slug;
pub mod storage;
pub mod system_health;
pub mod system_status_server;
pub mod text;
pub mod timeline;
pub mod transports;

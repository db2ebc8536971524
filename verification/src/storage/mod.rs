//! Storage.

pub mod kv;

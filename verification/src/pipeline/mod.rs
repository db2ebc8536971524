//! Request and response pipelines.

pub mod error;
pub mod nodes;
pub mod registry;
pub mod tcp;

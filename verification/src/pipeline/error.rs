//! Errors of the pipeline layer.

use vstd::prelude::*;

verus! {

/// What can go wrong while a pipeline is assembled or driven.
#[derive(Debug)]
pub enum PipelineError {
    /// An error told in words.
    Generic(String),
    /// The local addresses could not be listed.
    LocalIpAddressError(String),
    /// The downstream edge was attached before.
    EdgeAlreadySet,
    /// There is no downstream edge.
    NoEdge,
    /// There is no network edge.
    NoNetworkEdge,
    /// The sender of a response stream went away.
    DetachedStreamSender,
    /// The receiver of a response stream went away.
    DetachedStreamReceiver,
}

} // verus!

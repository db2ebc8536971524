//! Settings that other parts of the runtime share.

use vstd::prelude::*;

verus! {

/// Whether something can serve requests.
#[derive(Debug, Clone, Copy, PartialEq, Eq, Structural)]
pub enum HealthStatus {
    Ready,
    NotReady,
}

} // verus!

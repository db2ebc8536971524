//! The services that this process registered.

use vstd::prelude::*;

use crate::dict::Dict;

verus! {

/// The registered services, by name.
pub struct Registry<S> {
    pub inner: Dict<String, S>,
}

impl<S> Default for Registry<S> {
    fn default() -> (registry: Self)
        ensures
            registry.inner@ == Map::<Seq<char>, S>::empty(),
    {
        Registry { inner: Dict::new() }
    }
}

impl<S> Registry<S> {
    /// A registry without services.
    pub fn new() -> (registry: Self)
        ensures
            registry.inner@ == Map::<Seq<char>, S>::empty(),
    {
        Registry::default()
    }
}

} // verus!

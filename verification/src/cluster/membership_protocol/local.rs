//! In-memory cluster provider for tests.

use vstd::prelude::*;

verus! {

/// Local cluster provider: it only holds a membership storage and offers
/// no real cluster capabilities.
#[derive(Clone)]
pub struct LocalClusterProvider<T> {
    pub members_storage: T,
}

impl<T> LocalClusterProvider<T> {
    /// The storage of the cluster's members.
    pub fn members_storage(&self) -> (r: &T)
        ensures
            *r == self.members_storage,
    {
        &self.members_storage
    }
}

} // verus!

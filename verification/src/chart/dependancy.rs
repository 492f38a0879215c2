//! A directed dependency between two numbered items.

use vstd::prelude::*;

verus! {

/// An edge from the item `source` to the item `target` it depends on.
#[derive(Debug)]
pub struct Dependency {
    pub source: usize,
    pub target: usize,
}

impl Dependency {
    /// Creates a new [`Dependency`].
    pub fn new(source: usize, target: usize) -> (dep: Self)
        ensures
            dep.source == source,
            dep.target == target,
    {
        Self { source, target }
    }
}

} // verus!

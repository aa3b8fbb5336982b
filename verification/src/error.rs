//! What the surgery can object to.
use vstd::prelude::*;

verus! {

/// Why an asset, or a step on it, was turned down.
#[derive(Clone, Copy, Debug, PartialEq, Eq)]
pub enum SurgeryError {
    /// The graph does not have the number of roots that the step needs.
    InvalidRootCount,
    /// The link leads to no object that heads a metadata chain.
    MissingCapability,
}

} // verus!

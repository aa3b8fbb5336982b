//! Links: references into the object arena of a scene graph.
use vstd::prelude::*;

verus! {

/// A reference to an arena slot, or the null link.
///
/// A link says nothing about the kind of object it leads to: typed access is
/// a checked lookup on the store.
#[derive(Clone, Copy, Debug, PartialEq, Eq, Hash)]
pub struct Link {
    pub slot: Option<usize>,
}

impl Link {
    /// Whether the link is null or names one of the first `len` slots.
    pub open spec fn below(self, len: nat) -> bool {
        match self.slot {
            Some(i) => i < len,
            None => true,
        }
    }

    /// The link that leads nowhere.
    pub fn null() -> (link: Link)
        ensures
            link.slot is None,
    {
        Link { slot: None }
    }

    /// The link to the slot at `index`.
    pub fn at(index: usize) -> (link: Link)
        ensures
            link.slot == Some(index),
    {
        Link { slot: Some(index) }
    }

    /// Whether the link leads nowhere.
    pub fn is_null(&self) -> (null: bool)
        ensures
            null == (self.slot is None),
    {
        self.slot.is_none()
    }

    /// The slot that the link names, if it is not null.
    pub fn index(&self) -> (slot: Option<usize>)
        ensures
            slot == self.slot,
    {
        self.slot
    }
}

} // verus!

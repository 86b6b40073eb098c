use vstd::prelude::*;

verus! {

/// An opaque, uniquely identifiable reference to a playable item (a track or
/// an episode). The queue never looks inside an item; it only stores, moves
/// and compares them.
#[derive(Clone, Copy, PartialEq, Eq, Structural, Debug)]
pub struct Playable {
    /// Identity of the item; two items are the same exactly when their ids
    /// are equal.
    pub id: u64,
}

impl Playable {
    pub fn new(id: u64) -> (p: Playable)
        ensures
            p.id == id,
    {
        Playable { id }
    }
}

} // verus!

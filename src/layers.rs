use vstd::prelude::*;

verus! {

/// Marks what is drawn in the space arena (render layer 0).
#[derive(Clone, Copy, Debug, PartialEq, Eq, Structural)]
pub struct SpaceLayer;

/// Marks what is drawn in the factory view (render layer 1).
#[derive(Clone, Copy, Debug, PartialEq, Eq, Structural)]
pub struct FactoryLayer;

/// Marks what is drawn in the user interface (render layer 2).
#[derive(Clone, Copy, Debug, PartialEq, Eq, Structural)]
pub struct UILayer;

impl SpaceLayer {
    /// The render layer of this marker.
    pub fn layer(&self) -> (r: u8)
        ensures
            r == 0,
    {
        0
    }
}

impl FactoryLayer {
    /// The render layer of this marker.
    pub fn layer(&self) -> (r: u8)
        ensures
            r == 1,
    {
        1
    }
}

impl UILayer {
    /// The render layer of this marker.
    pub fn layer(&self) -> (r: u8)
        ensures
            r == 2,
    {
        2
    }
}

} // verus!

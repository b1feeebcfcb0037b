//! The scenes that come with the renderer, by name.

use vstd::prelude::*;

verus! {

/// One of the scenes that come with the renderer.
#[derive(Clone, Copy, Debug, PartialEq, Eq, Structural)]
pub enum Worlds {
    Random,
    RandomGlass,
    CornellBox,
    ThreeSphere,
    VerticalWall,
    SdfSpheres,
    SdfWall,
    SimpleAreaLight,
}

} // verus!

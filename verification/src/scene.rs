//! A scene: a camera, a hierarchy over the primitives and a background.

use vstd::prelude::*;
use crate::bvh::BvhTree;
use crate::camera::Camera;
use crate::color::Color;
use crate::hitable::{Hitable, HitableStore};

verus! {

/// All that a render reads. Nothing in it changes once it is made.
pub struct Scene<'a, H: Hitable> {
    pub camera: Camera,
    pub bvh: BvhTree<'a, H>,
    pub background: Color,
}

impl<'a, H: Hitable> Scene<'a, H> {
    /// A scene over the primitives of `models`, with a hierarchy built over
    /// them.
    pub fn new(models: &'a HitableStore<H>, camera: Camera, background: Color) -> (scene: Scene<'a, H>)
        requires
            BvhTree::<H>::buildable(models@),
        ensures
            scene.camera == camera,
            scene.background == background,
            scene.bvh.prims() == models@,
            BvhTree::<H>::built_over(scene.bvh@, models@),
            scene.bvh@.leaves() == models@.len(),
    {
        Scene { camera, bvh: BvhTree::new(models), background }
    }
}

} // verus!

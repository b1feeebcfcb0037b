use vstd::prelude::*;
use crate::scalar::Scalar;
use crate::texture::perlin::{Perlin, SIZE};
use crate::vec3::Vec3;

verus! {

/// Gradient noise at a scale.
#[derive(Clone, Debug)]
pub struct Noise {
    pub scale: Scalar,
    pub perlin: Perlin,
}

impl Noise {
    /// Noise at `scale` over the given gradients; `None` unless there are
    /// 256 of them.
    pub fn new(scale: Scalar, ranvec: Vec<Vec3>) -> (n: Option<Self>)
        ensures
            n.is_some() == (ranvec@.len() == SIZE),
            n.is_some() ==> n.unwrap().scale == scale && n.unwrap().perlin.wf() && n.unwrap().perlin.ranvec@
                == ranvec@,
    {
        match Perlin::new(ranvec) {
            Some(perlin) => Some(Self { scale, perlin }),
            None => None,
        }
    }
}

} // verus!

//! The stylised variant: deflected normals and banded tints.

pub mod deflection_opt;
pub mod tint_opt;
pub mod material;
pub mod renderer;

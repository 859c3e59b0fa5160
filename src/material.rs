use vstd::prelude::*;

verus! {

/// How a surface scatters the light that reaches it.
#[derive(Debug, Clone, Copy, PartialEq, Eq, Structural)]
pub enum MaterialType {
    /// Lambertian reflection: light leaves in a random direction on the
    /// hemisphere about the surface normal.
    Diffuse,
    /// Perfect mirror reflection about the surface normal.
    Metal,
}

} // verus!

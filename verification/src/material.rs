//! Surface materials and the handles by which geometry refers to them.

use vstd::prelude::*;
use crate::colorf::ColorF;
use crate::scalar::Scalar;
use crate::vector::Vec4f;

verus! {

/// How a surface answers light. A material is never changed once it is part
/// of a scene.
#[derive(Clone, Copy, Debug)]
pub struct Material {
    /// Refractive index; one bends nothing.
    pub refract: Scalar,
    /// Weights of the diffuse, specular, reflected and refracted parts, in
    /// this order. They need not sum to one.
    pub albedo: Vec4f,
    pub diffuse_color: ColorF,
    /// Phong exponent of the highlight.
    pub specularity: Scalar,
}

/// A material's place in the registry of the scene that owns it. Geometry
/// and hits hold handles, never materials.
#[derive(Clone, Copy, Debug, PartialEq, Eq, Structural)]
pub struct MaterialId {
    pub index: usize,
}

} // verus!

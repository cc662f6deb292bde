//! What a ray can hit: the interface of the scene's geometry, and its two
//! built-in shapes.

use vstd::prelude::*;
use crate::material::MaterialId;
use crate::scalar::Scalar;
use crate::vector::Vec3f;

pub mod chessboard;
pub mod sphere;

verus! {

/// Where a ray met a surface. A hit is made for one query and dropped after
/// the shading step that used it.
#[derive(Clone, Copy, Debug)]
pub struct HitInfo {
    /// Distance from the ray's origin along its direction.
    pub distance: Scalar,
    pub hitpoint: Vec3f,
    /// Surface normal at the hit point, of unit length.
    pub normal: Vec3f,
    pub material: MaterialId,
}

/// A shape that rays can be tested against.
///
/// The scene's geometry is open: callers bring their own shapes. A shape
/// answers a ray by itself, and the same ray always in the same way. `hit`
/// is the name of that answer in contracts. Nothing else is assumed of an
/// implementation: not that it hits anything, nor that what it returns is
/// well formed.
pub trait RayTraceable: Send + Sync {
    /// The answer of this shape to the ray from `origin` along `dir`. This
    /// is a name for contracts and is never run: an implementation that is
    /// not verified gives it a body that is never reached.
    spec fn hit(&self, origin: Vec3f, dir: Vec3f) -> Option<HitInfo>;

    /// The hit of the ray from `origin` along `dir` on this shape, if there
    /// is one.
    fn ray_intersect(&self, origin: &Vec3f, dir: &Vec3f) -> (r: Option<HitInfo>)
        ensures
            r == self.hit(*origin, *dir),
    ;
}

} // verus!

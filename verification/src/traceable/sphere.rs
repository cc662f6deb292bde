//! Spheres.

use vstd::prelude::*;
use crate::material::MaterialId;
use crate::scalar::{Scalar, ZERO_BITS};
use crate::vector::Vec3f;

verus! {

/// A sphere of one material.
#[derive(Clone, Copy, Debug)]
pub struct Sphere {
    pub center: Vec3f,
    pub radius: Scalar,
    pub material: MaterialId,
}

/// Which of the two crossings of a ray's line with a sphere is the hit: the
/// near one unless it lies behind the origin, then the far one; nothing if
/// that one lies behind the origin too. A crossing at distance zero counts.
pub open spec fn visible_root(near: Scalar, far: Scalar) -> Option<Scalar> {
    let zero = Scalar { bits: ZERO_BITS };
    let root = if near.less_than(zero) {
        far
    } else {
        near
    };
    if root.less_than(zero) {
        None
    } else {
        Some(root)
    }
}

impl Sphere {
    pub fn new(center: Vec3f, radius: Scalar, material: MaterialId) -> (s: Sphere)
        ensures
            s == (Sphere { center, radius, material }),
    {
        Sphere { center, radius, material }
    }

    /// The distance of the hit, given the distances `near` and `far` along
    /// the ray at which its line enters and leaves the sphere.
    pub fn nearest_root(near: Scalar, far: Scalar) -> (r: Option<Scalar>)
        ensures
            r == visible_root(near, far),
            r matches Some(root) ==> (root == near || root == far) && !root.less_than(
                Scalar { bits: ZERO_BITS },
            ),
    {
        let zero = Scalar::zero();
        let root = if near.lt(zero) {
            far
        } else {
            near
        };
        if root.lt(zero) {
            None
        } else {
            Some(root)
        }
    }
}

} // verus!

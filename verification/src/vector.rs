//! Points and directions of three and four single-precision components.

use vstd::prelude::*;
use crate::scalar::Scalar;

verus! {

/// Three components: a point or a direction in space.
#[derive(Clone, Copy, Debug)]
pub struct Vec3f {
    pub x: Scalar,
    pub y: Scalar,
    pub z: Scalar,
}

/// Four components: the weights of a material's albedo.
#[derive(Clone, Copy, Debug)]
pub struct Vec4f {
    pub x: Scalar,
    pub y: Scalar,
    pub z: Scalar,
    pub w: Scalar,
}

impl Vec3f {
    /// The opposite vector: each component with the opposite sign.
    pub open spec fn negated(self) -> Vec3f {
        Vec3f { x: self.x.negated(), y: self.y.negated(), z: self.z.negated() }
    }

    pub fn new(x: Scalar, y: Scalar, z: Scalar) -> (v: Vec3f)
        ensures
            v == (Vec3f { x, y, z }),
    {
        Vec3f { x, y, z }
    }

    /// The opposite vector.
    pub fn neg(self) -> (v: Vec3f)
        ensures
            v == self.negated(),
    {
        Vec3f { x: self.x.neg(), y: self.y.neg(), z: self.z.neg() }
    }
}

impl Vec4f {
    pub fn new(x: Scalar, y: Scalar, z: Scalar, w: Scalar) -> (v: Vec4f)
        ensures
            v == (Vec4f { x, y, z, w }),
    {
        Vec4f { x, y, z, w }
    }
}

} // verus!

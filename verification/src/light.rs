//! Point lights.

use vstd::prelude::*;
use crate::scalar::Scalar;
use crate::vector::Vec3f;

verus! {

/// A point light: where it is and how strong.
#[derive(Clone, Copy, Debug)]
pub struct Light {
    pub position: Vec3f,
    pub intensity: Scalar,
}

} // verus!

//! The decisions of the recursive shading engine.
//!
//! Shading a ray means: find the nearest hit; give up for the background
//! where there is none or the ray is too deep; otherwise trace a reflected
//! and a refracted ray one level deeper, each restarted a little off the
//! surface, and add the light of every lamp that nothing occludes. The
//! arithmetic on directions and colours is the caller's. What is decided
//! here is when to stop, on which side of the surface a new ray starts,
//! from which side a refracted ray crosses it and whether it crosses at
//! all, and whether a lamp is in shadow.

use vstd::prelude::*;
use crate::colorf::ColorF;
use crate::scalar::{Scalar, ONE_BITS, ZERO_BITS};
use crate::traceable::HitInfo;
use crate::vector::Vec3f;

verus! {

/// The deepest level at which a ray is still shaded. The primary ray has
/// depth 0, so a primary ray is followed through `MAX_REFLECTION + 1` bounces.
pub const MAX_REFLECTION: i32 = 4;

/// Encoding of the distance 0.001 by which a restarted ray is moved off the
/// surface it starts on.
pub const BIAS_BITS: u32 = 0x3a83_126f;

/// Encodings of the background colour (0.2, 0.7, 0.8).
pub const BACKGROUND_R_BITS: u32 = 0x3e4c_cccd;

pub const BACKGROUND_G_BITS: u32 = 0x3f33_3333;

pub const BACKGROUND_B_BITS: u32 = 0x3f4c_cccd;

/// How the shading of a ray begins: with the background colour, which ends
/// it, or with the surface that is shaded next.
#[derive(Clone, Copy, Debug)]
pub enum Shading {
    Background(ColorF),
    Surface(HitInfo),
}

/// The background colour.
pub open spec fn background_color() -> ColorF {
    ColorF::opaque(
        Scalar { bits: BACKGROUND_R_BITS },
        Scalar { bits: BACKGROUND_G_BITS },
        Scalar { bits: BACKGROUND_B_BITS },
    )
}

/// How the shading of a ray at `depth` begins when its nearest hit is `hit`:
/// with the background if there is no hit or the ray is deeper than
/// `MAX_REFLECTION`, else with the surface that was hit.
pub open spec fn shading_of(hit: Option<HitInfo>, depth: i32) -> Shading {
    match hit {
        Some(surface) if depth <= MAX_REFLECTION => Shading::Surface(surface),
        _ => Shading::Background(background_color()),
    }
}

/// The two media at a surface as a ray meets them, for the law of
/// refraction.
#[derive(Clone, Copy, Debug)]
pub struct Interface {
    /// Cosine of the angle of incidence, not below zero but for a NaN.
    pub cosine: Scalar,
    /// Refractive index of the medium that the ray comes from.
    pub eta_incident: Scalar,
    /// Refractive index of the medium that the ray goes into.
    pub eta_transmitted: Scalar,
    /// The normal of the surface, turned to face the ray.
    pub normal: Vec3f,
}

/// The media at the surface of a shape of refractive index `index`, for a
/// ray whose direction has the dot product `-cosine` with `normal`. A ray
/// from outside comes from the vacuum, of index one. A ray from inside
/// (`cosine` below zero) sees the two indices swapped, the cosine negated
/// and the normal turned.
pub open spec fn interface_of(cosine: Scalar, index: Scalar, normal: Vec3f) -> Interface {
    if cosine.less_than(Scalar { bits: ZERO_BITS }) {
        Interface {
            cosine: cosine.negated(),
            eta_incident: index,
            eta_transmitted: Scalar { bits: ONE_BITS },
            normal: normal.negated(),
        }
    } else {
        Interface {
            cosine,
            eta_incident: Scalar { bits: ONE_BITS },
            eta_transmitted: index,
            normal,
        }
    }
}

/// Whether a lamp is hidden from a point: the shadow ray towards it met
/// something strictly nearer than the lamp.
pub open spec fn occluded(blocker: Option<Scalar>, light_distance: Scalar) -> bool {
    match blocker {
        Some(distance) => distance.less_than(light_distance),
        None => false,
    }
}

/// The colour of a ray that hits nothing or is too deep.
pub fn background() -> (c: ColorF)
    ensures
        c == background_color(),
{
    ColorF::rgb(
        Scalar::from_bits(BACKGROUND_R_BITS),
        Scalar::from_bits(BACKGROUND_G_BITS),
        Scalar::from_bits(BACKGROUND_B_BITS),
    )
}

/// The offset of a restarted ray from the surface.
pub fn bias() -> (r: Scalar)
    ensures
        r.bits == BIAS_BITS,
{
    Scalar::from_bits(BIAS_BITS)
}

/// Decides between shading and the background for a ray at `depth` whose
/// nearest hit is `hit`.
///
/// A ray deeper than `MAX_REFLECTION` gets the background whatever it hits;
/// a ray at exactly that depth is still shaded, and its two secondary rays
/// are the ones that stop.
pub fn begin_shading(hit: Option<HitInfo>, depth: i32) -> (r: Shading)
    ensures
        r == shading_of(hit, depth),
        depth > MAX_REFLECTION ==> r == Shading::Background(background_color()),
        hit is None ==> r == Shading::Background(background_color()),
        depth <= MAX_REFLECTION ==> (hit matches Some(surface) ==> r == Shading::Surface(surface)),
{
    if depth > MAX_REFLECTION {
        return Shading::Background(background());
    }
    match hit {
        Some(surface) => Shading::Surface(surface),
        None => Shading::Background(background()),
    }
}

/// The origin of a ray that leaves a surface: the point just inside where
/// the new direction goes into the surface (`cosine`, its dot product with
/// the normal, is below zero), the point just outside in every other case,
/// a NaN included.
pub fn restart_point(cosine: Scalar, inside: Vec3f, outside: Vec3f) -> (r: Vec3f)
    ensures
        r == if cosine.less_than(Scalar { bits: ZERO_BITS }) {
            inside
        } else {
            outside
        },
{
    if cosine.lt(Scalar::zero()) {
        inside
    } else {
        outside
    }
}

/// The media on the two sides of a surface, as the ray meets them.
pub fn refraction_interface(cosine: Scalar, index: Scalar, normal: Vec3f) -> (r: Interface)
    ensures
        r == interface_of(cosine, index, normal),
        !r.cosine.less_than(Scalar { bits: ZERO_BITS }),
{
    if cosine.lt(Scalar::zero()) {
        Interface {
            cosine: cosine.neg(),
            eta_incident: index,
            eta_transmitted: Scalar::one(),
            normal: normal.neg(),
        }
    } else {
        Interface { cosine, eta_incident: Scalar::one(), eta_transmitted: index, normal }
    }
}

/// Whether a ray is reflected totally, so that no refracted ray exists:
/// the discriminant of the law of refraction is below zero. The refracted
/// direction is then the zero vector, which hits nothing.
pub fn total_reflection(discriminant: Scalar) -> (r: bool)
    ensures
        r == discriminant.less_than(Scalar { bits: ZERO_BITS }),
{
    discriminant.lt(Scalar::zero())
}

/// Whether the lamp at `light_distance` is in shadow, given the distance to
/// what the shadow ray hit, if it hit anything. A lamp in shadow adds
/// nothing, neither diffuse nor specular.
pub fn light_occluded(blocker: Option<Scalar>, light_distance: Scalar) -> (r: bool)
    ensures
        r == occluded(blocker, light_distance),
        blocker is None ==> !r,
{
    match blocker {
        Some(distance) => distance.lt(light_distance),
        None => false,
    }
}

} // verus!

//! From pixels to primary rays: which pixel a place of the frame's data is,
//! and where inside a pixel the samples are taken.
//!
//! The camera sits at the origin and looks down the negative z axis. The
//! direction of a primary ray is computed by the caller from these values.

use vstd::prelude::*;
use crate::scalar::Scalar;

verus! {

/// Encoding of the vertical field of view, a quarter of pi.
pub const FOV_BITS: u32 = 0x3f49_0fdb;

/// Encoding of one eighth, the smaller step of the sample pattern.
pub const EIGHTH_BITS: u32 = 0x3e00_0000;

/// Encoding of three eighths, the larger step of the sample pattern.
pub const THREE_EIGHTHS_BITS: u32 = 0x3ec0_0000;

/// The number of samples of the rotated grid.
pub const RGSS_SAMPLES: usize = 4;

/// A quarter turn of an offset: `(a, b)` becomes `(b, -a)`.
pub open spec fn quarter_turn(offset: (Scalar, Scalar)) -> (Scalar, Scalar) {
    (offset.1, offset.0.negated())
}

/// The offset of a sample of the rotated grid from the pixel's centre, in
/// units of the pixel's half width: the first is (1/8, 3/8), and each
/// further one is the one before turned by a quarter.
pub open spec fn rgss(sample: nat) -> (Scalar, Scalar)
    decreases sample,
{
    if sample == 0 {
        (Scalar { bits: EIGHTH_BITS }, Scalar { bits: THREE_EIGHTHS_BITS })
    } else {
        quarter_turn(rgss((sample - 1) as nat))
    }
}

/// The vertical field of view.
pub fn fov() -> (r: Scalar)
    ensures
        r == (Scalar { bits: FOV_BITS }),
{
    Scalar::from_bits(FOV_BITS)
}

/// The pixel that the place `index` of a frame's data stands for, as
/// column and row, in a frame of the given width.
pub fn pixel_coords(index: usize, width: usize) -> (r: (usize, usize))
    requires
        width > 0,
    ensures
        r.0 == index % width,
        r.1 == index / width,
        r.0 < width,
        width * r.1 + r.0 == index,
{
    let y = index / width;
    proof {
        vstd::arithmetic::div_mod::lemma_fundamental_div_mod(index as int, width as int);
        assert(y * width == width * y) by (nonlinear_arith);
    }
    let x = index - y * width;
    (x, y)
}

/// The offset of the sample `sample` of the rotated grid. The pattern has
/// four samples and repeats after them.
pub fn rgss_offset(sample: usize) -> (r: (Scalar, Scalar))
    ensures
        r == rgss((sample % RGSS_SAMPLES) as nat),
{
    let small = Scalar::from_bits(EIGHTH_BITS);
    let large = Scalar::from_bits(THREE_EIGHTHS_BITS);
    proof {
        reveal_with_fuel(rgss, 4);
    }
    match sample % RGSS_SAMPLES {
        0 => (small, large),
        1 => (large, small.neg()),
        2 => (small.neg(), large.neg()),
        _ => (large.neg(), small),
    }
}

/// After four quarter turns the pattern is back at its first sample.
pub proof fn lemma_rgss_closes()
    ensures
        quarter_turn(rgss(3)) == rgss(0),
        rgss(4) == rgss(0),
{
    reveal_with_fuel(rgss, 5);
}

} // verus!

//! RGBA colours with single-precision channels.

use vstd::prelude::*;
use crate::scalar::{Scalar, ONE_BITS, ZERO_BITS};

verus! {

/// A colour of four channels. Nothing clamps a channel here: values above
/// one are kept until the image is encoded.
#[derive(Clone, Copy, Debug)]
pub struct ColorF {
    pub r: Scalar,
    pub g: Scalar,
    pub b: Scalar,
    pub a: Scalar,
}

impl ColorF {
    /// The colour with these three channels and an alpha of one.
    pub open spec fn opaque(r: Scalar, g: Scalar, b: Scalar) -> ColorF {
        ColorF { r, g, b, a: Scalar { bits: ONE_BITS } }
    }

    /// The opaque colour whose channels are each zero or one.
    pub open spec fn primary(r: bool, g: bool, b: bool) -> ColorF {
        ColorF::opaque(
            Scalar { bits: if r { ONE_BITS } else { ZERO_BITS } },
            Scalar { bits: if g { ONE_BITS } else { ZERO_BITS } },
            Scalar { bits: if b { ONE_BITS } else { ZERO_BITS } },
        )
    }

    /// Opaque black.
    pub fn new() -> (c: ColorF)
        ensures
            c == ColorF::primary(false, false, false),
    {
        ColorF { r: Scalar::zero(), g: Scalar::zero(), b: Scalar::zero(), a: Scalar::one() }
    }

    /// An opaque colour.
    pub fn rgb(r: Scalar, g: Scalar, b: Scalar) -> (c: ColorF)
        ensures
            c == ColorF::opaque(r, g, b),
    {
        ColorF { r, g, b, a: Scalar::one() }
    }

    pub fn rgba(r: Scalar, g: Scalar, b: Scalar, a: Scalar) -> (c: ColorF)
        ensures
            c == (ColorF { r, g, b, a }),
    {
        ColorF { r, g, b, a }
    }

    /// Opaque black, the colour of a fresh frame.
    pub fn black() -> (c: ColorF)
        ensures
            c == ColorF::primary(false, false, false),
    {
        ColorF::rgb(Scalar::zero(), Scalar::zero(), Scalar::zero())
    }

    pub fn white() -> (c: ColorF)
        ensures
            c == ColorF::primary(true, true, true),
    {
        ColorF::rgb(Scalar::one(), Scalar::one(), Scalar::one())
    }

    pub fn red() -> (c: ColorF)
        ensures
            c == ColorF::primary(true, false, false),
    {
        ColorF::rgb(Scalar::one(), Scalar::zero(), Scalar::zero())
    }

    pub fn green() -> (c: ColorF)
        ensures
            c == ColorF::primary(false, true, false),
    {
        ColorF::rgb(Scalar::zero(), Scalar::one(), Scalar::zero())
    }

    pub fn blue() -> (c: ColorF)
        ensures
            c == ColorF::primary(false, false, true),
    {
        ColorF::rgb(Scalar::zero(), Scalar::zero(), Scalar::one())
    }
}

} // verus!

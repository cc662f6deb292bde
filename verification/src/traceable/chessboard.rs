//! The chequered floor: a horizontal plane, cut to a rectangle, whose cells
//! of two by two units alternate between two materials.

use vstd::prelude::*;
use crate::material::MaterialId;
use crate::scalar::{Scalar, ZERO_BITS};
use crate::vector::Vec3f;

verus! {

/// Encoding of 4: the floor is the plane y = -4.
pub const DEPTH_BELOW_ORIGIN_BITS: u32 = 0x4080_0000;

/// Encoding of 0.001: a ray whose direction has a smaller |y| runs along
/// the floor and never meets it.
pub const PARALLEL_BITS: u32 = 0x3a83_126f;

/// Encoding of 10: the floor reaches from x = -10 to x = 10.
pub const HALF_WIDTH_BITS: u32 = 0x4120_0000;

/// Encoding of -10: the edge of the floor nearest to the camera.
pub const NEAR_EDGE_BITS: u32 = 0xc120_0000;

/// Encoding of -30: the far edge of the floor.
pub const FAR_EDGE_BITS: u32 = 0xc1f0_0000;

/// Encoding of 0.5: a cell is two units wide and deep.
pub const CELLS_PER_UNIT_BITS: u32 = 0x3f00_0000;

/// Encoding of 1000: added to the column of a cell before it is truncated,
/// so that truncation rounds the same way on both sides of x = 0.
pub const COLUMN_OFFSET_BITS: u32 = 0x447a_0000;

/// A bounded horizontal plane whose cells alternate between two materials.
#[derive(Clone, Copy, Debug)]
pub struct Chessboard {
    pub even_material: MaterialId,
    pub odd_material: MaterialId,
}

/// Whether a direction with this y component meets the floor's plane at
/// all: |y| is above the threshold. False of a NaN.
pub open spec fn steep(dir_y: Scalar) -> bool {
    (Scalar { bits: PARALLEL_BITS }).less_than(Scalar { bits: dir_y.magnitude() })
}

/// Whether a crossing of the plane, at `distance` along the ray and at the
/// point `hit`, is a hit of the floor: in front of the origin and strictly
/// inside the rectangle.
pub open spec fn on_floor(distance: Scalar, hit: Vec3f) -> bool {
    &&& (Scalar { bits: ZERO_BITS }).less_than(distance)
    &&& (Scalar { bits: hit.x.magnitude() }).less_than(Scalar { bits: HALF_WIDTH_BITS })
    &&& hit.z.less_than(Scalar { bits: NEAR_EDGE_BITS })
    &&& (Scalar { bits: FAR_EDGE_BITS }).less_than(hit.z)
}

/// Whether the cell in this column and row is an odd one.
pub open spec fn odd_cell(column: int, row: int) -> bool {
    (column + row) % 2 != 0
}

impl Chessboard {
    /// The material of the cell in this column and row.
    pub open spec fn cell_material(self, column: int, row: int) -> MaterialId {
        if odd_cell(column, row) {
            self.odd_material
        } else {
            self.even_material
        }
    }

    /// Whether a ray along a direction with this y component can meet the floor.
    pub fn crosses_plane(dir_y: Scalar) -> (r: bool)
        ensures
            r == steep(dir_y),
    {
        Scalar::from_bits(PARALLEL_BITS).lt(dir_y.abs())
    }

    /// Whether the crossing of the plane at `distance` along the ray, at the
    /// point `hit`, lies on the floor.
    pub fn contains(distance: Scalar, hit: &Vec3f) -> (r: bool)
        ensures
            r == on_floor(distance, *hit),
    {
        Scalar::zero().lt(distance) && hit.x.abs().lt(Scalar::from_bits(HALF_WIDTH_BITS))
            && hit.z.lt(Scalar::from_bits(NEAR_EDGE_BITS)) && Scalar::from_bits(FAR_EDGE_BITS).lt(
            hit.z,
        )
    }

    /// The material of the cell in this column and row, for every pair of
    /// cell numbers: nothing overflows.
    pub fn material_at(&self, column: i32, row: i32) -> (m: MaterialId)
        ensures
            m == self.cell_material(column as int, row as int),
            m == self.even_material || m == self.odd_material,
    {
        let odd = (column % 2 != 0) != (row % 2 != 0);
        if odd {
            self.odd_material
        } else {
            self.even_material
        }
    }

    /// Cells that are one column or one row apart are of different parity,
    /// so the two materials alternate in both directions and along neither
    /// diagonal.
    pub proof fn lemma_cells_alternate(self, column: int, row: int)
        ensures
            odd_cell(column + 1, row) != odd_cell(column, row),
            odd_cell(column, row + 1) != odd_cell(column, row),
            odd_cell(column + 1, row + 1) == odd_cell(column, row),
            self.cell_material(column + 1, row) == if odd_cell(column, row) {
                self.even_material
            } else {
                self.odd_material
            },
            self.cell_material(column, row + 1) == self.cell_material(column + 1, row),
            self.cell_material(column + 1, row + 1) == self.cell_material(column, row),
    {
    }
}

} // verus!

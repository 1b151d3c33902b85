//! Block positions.

use crate::float::double::Double;
use crate::float::model;
use crate::float::model::Format;
use crate::vector::{Vec3, VecView};
use vstd::prelude::*;

verus! {

/// The position of a block.
#[derive(Clone, Copy, Debug, PartialEq, Eq, Structural)]
pub struct BlockPos {
    pub x: i32,
    pub y: i32,
    pub z: i32,
}

impl BlockPos {
    /// The block at the origin.
    pub fn zero() -> (r: BlockPos)
        ensures
            r == (BlockPos { x: 0, y: 0, z: 0 }),
    {
        BlockPos { x: 0, y: 0, z: 0 }
    }

    /// The middle of the block's floor: half a block in from its corner, at its
    /// own height.
    pub open spec fn bottom_center(self) -> VecView {
        let half = model::ratio(Format::Binary64, 1, 2);
        VecView {
            x: model::plus(Format::Binary64, model::whole(Format::Binary64, self.x as int), half),
            y: model::whole(Format::Binary64, self.y as int),
            z: model::plus(Format::Binary64, model::whole(Format::Binary64, self.z as int), half),
        }
    }

    /// The middle of the block's floor.
    pub fn get_bottom_center(self) -> (r: Vec3)
        ensures
            r@ == self.bottom_center(),
    {
        let half = Double::ratio(1, 2);
        Vec3 {
            x: Double::whole(self.x).plus(half),
            y: Double::whole(self.y),
            z: Double::whole(self.z).plus(half),
        }
    }
}

/// Where the exit portal sits for an arena centered on `origin`.
///
/// The podium stands at the arena's very center, so this is the center itself.
#[must_use]
pub fn end_podium_location(origin: BlockPos) -> (r: BlockPos)
    ensures
        r == origin,
{
    origin
}

} // verus!

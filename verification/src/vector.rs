//! Points and directions in space.

use crate::float::double::Double;
use crate::float::model;
use crate::float::model::{Datum, Format};
use vstd::prelude::*;

verus! {

/// Three coordinates.
#[derive(Clone, Copy, Debug)]
pub struct Vec3 {
    pub x: Double,
    pub y: Double,
    pub z: Double,
}

/// The numbers of three coordinates.
pub struct VecView {
    pub x: Datum,
    pub y: Datum,
    pub z: Datum,
}

impl View for Vec3 {
    type V = VecView;

    open spec fn view(&self) -> VecView {
        VecView { x: self.x@, y: self.y@, z: self.z@ }
    }
}

impl VecView {
    /// The sum, coordinate by coordinate.
    pub open spec fn plus(self, other: VecView) -> VecView {
        VecView {
            x: model::plus(Format::Binary64, self.x, other.x),
            y: model::plus(Format::Binary64, self.y, other.y),
            z: model::plus(Format::Binary64, self.z, other.z),
        }
    }

    /// The difference, coordinate by coordinate.
    pub open spec fn minus(self, other: VecView) -> VecView {
        VecView {
            x: model::minus(Format::Binary64, self.x, other.x),
            y: model::minus(Format::Binary64, self.y, other.y),
            z: model::minus(Format::Binary64, self.z, other.z),
        }
    }

    /// The product, coordinate by coordinate.
    pub open spec fn times(self, other: VecView) -> VecView {
        VecView {
            x: model::times(Format::Binary64, self.x, other.x),
            y: model::times(Format::Binary64, self.y, other.y),
            z: model::times(Format::Binary64, self.z, other.z),
        }
    }

    /// All three coordinates multiplied by one number.
    pub open spec fn scaled(self, by: Datum) -> VecView {
        self.times(VecView { x: by, y: by, z: by })
    }

    /// The inner product, added up from the left.
    pub open spec fn dot(self, other: VecView) -> Datum {
        model::plus(
            Format::Binary64,
            model::plus(
                Format::Binary64,
                model::times(Format::Binary64, self.x, other.x),
                model::times(Format::Binary64, self.y, other.y),
            ),
            model::times(Format::Binary64, self.z, other.z),
        )
    }

    /// The square of the distance to another point.
    pub open spec fn distance_squared(self, other: VecView) -> Datum {
        let apart = self.minus(other);
        apart.dot(apart)
    }

    /// The origin.
    pub open spec fn zero() -> VecView {
        let nought = model::whole(Format::Binary64, 0);
        VecView { x: nought, y: nought, z: nought }
    }

    /// The direction, brought to length one; the origin where there is none.
    pub open spec fn normalized_or_zero(self) -> VecView {
        let shrink = model::over(
            Format::Binary64,
            model::whole(Format::Binary64, 1),
            model::root(Format::Binary64, self.dot(self)),
        );
        if shrink is Finite && model::whole(Format::Binary64, 0).less(shrink) {
            self.scaled(shrink)
        } else {
            VecView::zero()
        }
    }
}

impl Vec3 {
    /// The point with these coordinates.
    pub fn new(x: Double, y: Double, z: Double) -> (r: Vec3)
        ensures
            r == (Vec3 { x, y, z }),
    {
        Vec3 { x, y, z }
    }

    /// The origin.
    pub fn zero() -> (r: Vec3)
        ensures
            r@ == VecView::zero(),
    {
        let nought = Double::whole(0);
        Vec3 { x: nought, y: nought, z: nought }
    }

    /// The sum, coordinate by coordinate.
    pub fn plus(self, other: Vec3) -> (r: Vec3)
        ensures
            r@ == self@.plus(other@),
    {
        Vec3 { x: self.x.plus(other.x), y: self.y.plus(other.y), z: self.z.plus(other.z) }
    }

    /// The difference, coordinate by coordinate.
    pub fn minus(self, other: Vec3) -> (r: Vec3)
        ensures
            r@ == self@.minus(other@),
    {
        Vec3 { x: self.x.minus(other.x), y: self.y.minus(other.y), z: self.z.minus(other.z) }
    }

    /// The product, coordinate by coordinate.
    pub fn times(self, other: Vec3) -> (r: Vec3)
        ensures
            r@ == self@.times(other@),
    {
        Vec3 { x: self.x.times(other.x), y: self.y.times(other.y), z: self.z.times(other.z) }
    }

    /// All three coordinates multiplied by one number.
    pub fn scaled(self, by: Double) -> (r: Vec3)
        ensures
            r@ == self@.scaled(by@),
    {
        self.times(Vec3 { x: by, y: by, z: by })
    }

    /// The inner product.
    pub fn dot(self, other: Vec3) -> (r: Double)
        ensures
            r@ == self@.dot(other@),
    {
        self.x.times(other.x).plus(self.y.times(other.y)).plus(self.z.times(other.z))
    }

    /// The square of the distance to another point.
    pub fn distance_squared(self, other: Vec3) -> (r: Double)
        ensures
            r@ == self@.distance_squared(other@),
    {
        let apart = self.minus(other);
        apart.dot(apart)
    }

    /// The direction, brought to length one; the origin where there is none.
    pub fn normalized_or_zero(self) -> (r: Vec3)
        ensures
            r@ == self@.normalized_or_zero(),
    {
        let shrink = Double::whole(1).over(self.dot(self).root());
        if shrink.is_finite() && Double::whole(0).less(shrink) {
            self.scaled(shrink)
        } else {
            Vec3::zero()
        }
    }
}

} // verus!

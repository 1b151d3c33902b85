//! The hitboxes of the dragon.

use crate::float::double::Double;
use crate::float::model;
use crate::float::model::{Datum, Format};
use crate::float::single::Single;
use crate::vector::{Vec3, VecView};
use vstd::prelude::*;

verus! {

/// How wide and how tall an entity is.
#[derive(Clone, Copy, Debug)]
pub struct EntityDimensions {
    pub width: Single,
    pub height: Single,
}

/// The health an entity of a kind starts with and never exceeds. It is a number,
/// and not below zero.
#[derive(Clone, Copy, Debug)]
pub struct MaxHealth {
    points: Single,
}

impl MaxHealth {
    #[verifier::type_invariant]
    pub closed spec fn inv(self) -> bool {
        model::whole(Format::Binary32, 0).at_most(self.points@)
    }

    /// The points as a number.
    pub closed spec fn number(self) -> Datum {
        self.points@
    }

    /// The attribute, unless the number is none or below zero.
    pub fn new(points: Single) -> (r: Option<MaxHealth>)
        ensures
            r is Some <==> model::whole(Format::Binary32, 0).at_most(points@),
            r is Some ==> r->0.number() == points@,
    {
        if Single::whole(0).at_most(points) {
            Some(MaxHealth { points })
        } else {
            None
        }
    }

    /// The points as a number.
    pub fn get(self) -> (r: Single)
        ensures
            r@ == self.number(),
            model::whole(Format::Binary32, 0).at_most(r@),
    {
        proof {
            use_type_invariant(&self);
        }
        self.points
    }
}

/// The kind of an entity: its number in the registry, its size, and its health.
#[derive(Clone, Copy, Debug)]
pub struct EntityType {
    pub key: u32,
    pub dimensions: EntityDimensions,
    pub max_health: MaxHealth,
}

/// Which part of the body a hitbox covers.
#[derive(Clone, Copy, Debug, PartialEq, Eq, Structural)]
pub enum PartKind {
    Head,
    Neck,
    Body,
    Tail,
    Wing,
}

/// An upright box.
#[derive(Clone, Copy, Debug)]
pub struct WorldAabb {
    pub min: Vec3,
    pub max: Vec3,
}

/// One hitbox of the dragon.
#[derive(Clone, Copy, Debug)]
pub struct EnderDragonPart {
    pub entity_type: EntityType,
    pub id: i32,
    pub kind: PartKind,
    pub width: Single,
    pub height: Single,
    pub position: Vec3,
}

/// What a hitbox amounts to.
pub struct PartView {
    pub entity_type: EntityType,
    pub id: int,
    pub kind: PartKind,
    pub width: Datum,
    pub height: Datum,
    pub position: VecView,
}

impl View for EnderDragonPart {
    type V = PartView;

    open spec fn view(&self) -> PartView {
        PartView {
            entity_type: self.entity_type,
            id: self.id as int,
            kind: self.kind,
            width: self.width@,
            height: self.height@,
            position: self.position@,
        }
    }
}

impl PartView {
    /// How far the part reaches to a side.
    pub open spec fn reach(self) -> Datum {
        model::over(
            Format::Binary64,
            model::widened(self.width),
            model::whole(Format::Binary64, 2),
        )
    }

    /// The lowest corner of the box that the part fills.
    pub open spec fn lowest(self) -> VecView {
        self.position.minus(
            VecView { x: self.reach(), y: model::whole(Format::Binary64, 0), z: self.reach() },
        )
    }

    /// The highest corner of the box that the part fills.
    pub open spec fn highest(self) -> VecView {
        self.position.plus(
            VecView { x: self.reach(), y: model::widened(self.height), z: self.reach() },
        )
    }
}

impl PartKind {
    /// The name of the part.
    pub open spec fn label(self) -> Seq<char> {
        match self {
            PartKind::Head => "head"@,
            PartKind::Neck => "neck"@,
            PartKind::Body => "body"@,
            PartKind::Tail => "tail"@,
            PartKind::Wing => "wing"@,
        }
    }

    /// The width and height of the part, in whole blocks.
    pub open spec fn size(self) -> (int, int) {
        match self {
            PartKind::Head => (1, 1),
            PartKind::Neck => (3, 3),
            PartKind::Body => (5, 3),
            PartKind::Tail => (2, 2),
            PartKind::Wing => (4, 2),
        }
    }
}

impl EnderDragonPart {
    /// A hitbox of its kind's size.
    pub fn new(entity_type: EntityType, id: i32, kind: PartKind, position: Vec3) -> (r: EnderDragonPart)
        ensures
            r@ == (PartView {
                entity_type,
                id: id as int,
                kind,
                width: model::whole(Format::Binary32, kind.size().0),
                height: model::whole(Format::Binary32, kind.size().1),
                position: position@,
            }),
            r.position == position,
    {
        let (width, height): (i32, i32) = match kind {
            PartKind::Head => (1, 1),
            PartKind::Neck => (3, 3),
            PartKind::Body => (5, 3),
            PartKind::Tail => (2, 2),
            PartKind::Wing => (4, 2),
        };
        EnderDragonPart {
            entity_type,
            id,
            kind,
            width: Single::whole(width),
            height: Single::whole(height),
            position,
        }
    }

    /// The name of the part.
    pub fn part_name(&self) -> (r: &'static str)
        ensures
            r@ == self.kind.label(),
    {
        match self.kind {
            PartKind::Head => "head",
            PartKind::Neck => "neck",
            PartKind::Body => "body",
            PartKind::Tail => "tail",
            PartKind::Wing => "wing",
        }
    }

    /// Hitboxes are what arrows and swords hit.
    pub fn is_pickable(&self) -> (r: bool)
        ensures
            r,
    {
        true
    }

    /// The box the part fills: centered on its position, standing on it.
    pub fn bounding_box(&self) -> (r: WorldAabb)
        ensures
            r.min@ == self@.lowest(),
            r.max@ == self@.highest(),
            ({
                let side = model::over(
                    Format::Binary64,
                    model::widened(self.width@),
                    model::whole(Format::Binary64, 2),
                );
                let foot = VecView { x: side, y: model::whole(Format::Binary64, 0), z: side };
                let top = VecView { x: side, y: model::widened(self.height@), z: side };
                r.min@ == self.position@.minus(foot) && r.max@ == self.position@.plus(top)
            }),
    {
        let side = self.width.widened().over(Double::whole(2));
        let foot = Vec3 { x: side, y: Double::whole(0), z: side };
        let top = Vec3 { x: side, y: self.height.widened(), z: side };
        WorldAabb { min: self.position.minus(foot), max: self.position.plus(top) }
    }
}

} // verus!

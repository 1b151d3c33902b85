//! The phase in which the dragon flies to the podium to die.

use crate::block::BlockPos;
use crate::float::double::Double;
use crate::float::model;
use crate::float::model::{Datum, Format};
use crate::float::single::Single;
use crate::phase::EnderDragonPhase;
use crate::vector::{Vec3, VecView};
use vstd::prelude::*;

verus! {

/// Within this squared distance the dragon is there.
pub const MIN_TARGET_DISTANCE_SQR: i32 = 100;

/// Past this squared distance the dragon will never get there.
pub const MAX_TARGET_DISTANCE_SQR: i32 = 22500;

/// How fast the dragon makes its final flight, well above any other phase.
pub const DEATH_FLY_SPEED: i32 = 3;

/// Flying to the podium to die.
///
/// The phase does not kill the dragon; it *keeps it alive*. Health is re-asserted
/// at one every tick while the podium is still out of reach, and dropped to zero
/// on arrival, and since death goes by health, that drop is what finally lets the
/// death animation start counting.
#[derive(Clone, Copy, Debug)]
pub struct DragonDeathPhase {
    /// Latched on the first tick after `begin`, because resolving it needs the world.
    pub target_location: Option<Vec3>,
}

/// The point in view, where there is one.
pub open spec fn spot(place: Option<Vec3>) -> Option<VecView> {
    match place {
        Some(at) => Some(at@),
        None => None,
    }
}

impl View for DragonDeathPhase {
    type V = Option<VecView>;

    open spec fn view(&self) -> Option<VecView> {
        spot(self.target_location)
    }
}

/// Whether the final flight is over: the podium is near or out of reach, or the
/// dragon has run into something.
pub open spec fn arrived(
    target: VecView,
    position: VecView,
    horizontal_collision: bool,
    vertical_collision: bool,
) -> bool {
    let distance = target.distance_squared(position);
    ||| distance.less(model::whole(Format::Binary64, MIN_TARGET_DISTANCE_SQR as int))
    ||| model::whole(Format::Binary64, MAX_TARGET_DISTANCE_SQR as int).less(distance)
    ||| horizontal_collision
    ||| vertical_collision
}

/// The health that the phase holds the dragon at.
pub open spec fn dying_health(done: bool) -> Datum {
    model::whole(
        Format::Binary32,
        if done {
            0
        } else {
            1
        },
    )
}

impl DragonDeathPhase {
    /// The phase, with no target yet.
    #[must_use]
    pub fn new() -> (r: DragonDeathPhase)
        ensures
            r@ is None,
    {
        DragonDeathPhase { target_location: None }
    }

    /// The point above the exit portal that the dragon dies on: the middle of the
    /// podium's surface.
    pub fn podium_target(surface: BlockPos) -> (r: Vec3)
        ensures
            r@ == surface.bottom_center(),
    {
        surface.get_bottom_center()
    }

    /// Which phase this is.
    pub fn phase(&self) -> (r: EnderDragonPhase)
        ensures
            r == EnderDragonPhase::Dying,
    {
        EnderDragonPhase::Dying
    }

    /// One tick of the final flight, from the dragon's position and what it has
    /// run into; gives the health to hold it at. The podium's surface is needed
    /// only while no target is latched.
    pub fn do_server_tick(
        &mut self,
        position: Vec3,
        surface: Option<BlockPos>,
        horizontal_collision: bool,
        vertical_collision: bool,
    ) -> (health: Single)
        requires
            old(self)@ is None ==> surface is Some,
        ensures
            final(self)@ is Some,
            old(self)@ is Some ==> *final(self) == *old(self),
            old(self)@ is None ==> final(self)@ == Some(surface->0.bottom_center()),
            health@ == dying_health(
                arrived(final(self)@->0, position@, horizontal_collision, vertical_collision),
            ),
    {
        let target: Vec3 = match self.target_location {
            Some(latched) => latched,
            None => match surface {
                Some(ground) => DragonDeathPhase::podium_target(ground),
                None => position,
            },
        };
        self.target_location = Some(target);
        let distance = target.distance_squared(position);
        let done = distance.less(Double::whole(MIN_TARGET_DISTANCE_SQR)) || Double::whole(
            MAX_TARGET_DISTANCE_SQR,
        ).less(distance) || horizontal_collision || vertical_collision;
        if done {
            Single::whole(0)
        } else {
            Single::whole(1)
        }
    }

    /// Starts the phase over, with no target.
    pub fn begin(&mut self)
        ensures
            final(self)@ is None,
    {
        self.target_location = None;
    }

    /// How fast the phase flies.
    pub fn fly_speed(&self) -> (r: Single)
        ensures
            r@ == model::whole(Format::Binary32, DEATH_FLY_SPEED as int),
    {
        Single::whole(DEATH_FLY_SPEED)
    }

    /// Where the phase flies to.
    pub fn fly_target_location(&self) -> (r: Option<Vec3>)
        ensures
            r == self.target_location,
    {
        self.target_location
    }
}

impl Default for DragonDeathPhase {
    fn default() -> (r: DragonDeathPhase)
        ensures
            r@ is None,
    {
        DragonDeathPhase::new()
    }
}

} // verus!

//! How the dragon beats its wings and flies.

use crate::dragon;
use crate::dragon::{BaseView, DragonView, EnderDragonEntity, EntityBase};
use crate::float::double::Double;
use crate::float::model;
use crate::float::model::{Datum, Format};
use crate::float::single::Single;
use crate::vector::{Vec3, VecView};
use vstd::prelude::*;

verus! {

/// A full turn in radians, as a 32-bit pattern.
pub const TAU_BITS: u32 = 0x40C9_0FDB;

/// The turn rate ceiling per tick, in degrees.
pub const MAX_TURN_DEGREES: i32 = 50;

/// A whole number of 32 bits.
pub open spec fn single(n: int) -> Datum {
    model::whole(Format::Binary32, n)
}

/// A whole number of 64 bits.
pub open spec fn double(n: int) -> Datum {
    model::whole(Format::Binary64, n)
}

/// Which way and how far the dragon has to go.
#[derive(Clone, Copy, Debug)]
pub struct Approach {
    pub dx: Double,
    pub dz: Double,
    /// The squared distance to the target.
    pub distance: Double,
    /// The direction of the target.
    pub aim: Vec3,
}

/// What an approach amounts to.
pub struct ApproachView {
    pub dx: Datum,
    pub dz: Datum,
    pub distance: Datum,
    pub aim: VecView,
}

impl View for Approach {
    type V = ApproachView;

    open spec fn view(&self) -> ApproachView {
        ApproachView {
            dx: self.dx@,
            dz: self.dz@,
            distance: self.distance@,
            aim: self.aim@,
        }
    }
}

impl ApproachView {
    /// Whether the target is far enough off, to either side, to bother turning.
    pub open spec fn off_course(self) -> bool {
        let epsilon = model::ratio(Format::Binary64, 1, 100_000);
        epsilon.less(self.dx.absolute()) || epsilon.less(self.dz.absolute())
    }

    /// The forward thrust: full where the dragon is far off, and near the target
    /// the less the worse it is aimed.
    #[verifier::opaque]
    pub open spec fn thrust(self, alignment: Datum) -> Datum {
        let span = model::narrowed(
            model::over(
                Format::Binary64,
                double(2),
                model::plus(Format::Binary64, self.distance, double(1)),
            ),
        );
        model::times(
            Format::Binary32,
            model::ratio(Format::Binary32, 6, 100),
            model::plus(
                Format::Binary32,
                model::times(Format::Binary32, alignment, span),
                model::minus(Format::Binary32, single(1), span),
            ),
        )
    }

    /// How well a heading points at the target, from zero up.
    #[verifier::opaque]
    pub open spec fn alignment(self, heading: VecView) -> Datum {
        model::over(
            Format::Binary32,
            model::plus(
                Format::Binary32,
                model::narrowed(heading.dot(self.aim)),
                model::ratio(Format::Binary32, 1, 2),
            ),
            model::ratio(Format::Binary32, 3, 2),
        ).greater(single(0))
    }
}

/// The way from a position to a target. The squared distance is that of the full
/// offset, whatever the climb is held to.
#[verifier::opaque]
pub open spec fn approach_to(target: VecView, position: VecView) -> ApproachView {
    let offset = target.minus(position);
    ApproachView {
        dx: offset.x,
        dz: offset.z,
        distance: offset.dot(offset),
        aim: offset.normalized_or_zero(),
    }
}

/// How steeply the dragon climbs toward a target: the height per distance over
/// ground, held to the speed; straight above it, the height itself.
#[verifier::opaque]
pub open spec fn steepness(target: VecView, position: VecView, speed: Datum) -> Datum {
    let offset = target.minus(position);
    let ground = model::root(
        Format::Binary64,
        model::plus(
            Format::Binary64,
            model::times(Format::Binary64, offset.x, offset.x),
            model::times(Format::Binary64, offset.z, offset.z),
        ),
    );
    if double(0).less(ground) {
        model::over(Format::Binary64, offset.y, ground).held(
            model::widened(speed).negated(),
            model::widened(speed),
        )
    } else {
        offset.y
    }
}

/// The direction of a yaw, given its sine and cosine, that rises as the dragon does.
#[verifier::opaque]
pub open spec fn heading_of(sine: Datum, rise: Datum, cosine: Datum) -> VecView {
    (VecView { x: sine, y: rise, z: cosine.negated() }).normalized_or_zero()
}

/// How far the wings get in a tick of free flight.
#[verifier::opaque]
pub open spec fn flap_speed(ground_speed: Datum, lift: Datum) -> Datum {
    model::times(
        Format::Binary32,
        model::over(
            Format::Binary32,
            model::ratio(Format::Binary32, 1, 5),
            model::plus(
                Format::Binary32,
                model::times(Format::Binary32, ground_speed, single(10)),
                single(1),
            ),
        ),
        lift,
    )
}

/// The wing beat a tick later. Perched, it keeps a pace of its own; in a wall, it
/// is half as fast.
#[verifier::opaque]
pub open spec fn flap_after(flap_time: Datum, sitting: bool, in_wall: bool, free: Datum) -> Datum {
    let beat = if sitting {
        model::ratio(Format::Binary32, 1, 10)
    } else if in_wall {
        model::times(Format::Binary32, free, model::ratio(Format::Binary32, 1, 2))
    } else {
        free
    };
    model::plus(Format::Binary32, flap_time, beat)
}

/// The velocity once a climb is added to it.
#[verifier::opaque]
pub open spec fn velocity_climbing(velocity: VecView, steepness: Datum) -> VecView {
    let climb = model::times(Format::Binary64, steepness, model::ratio(Format::Binary64, 1, 100));
    velocity.plus(VecView { x: double(0), y: climb, z: double(0) })
}

/// The turn rate once a part of the last one is kept and the course error, held
/// to the ceiling, is added.
#[verifier::opaque]
pub open spec fn turn_rate(last: Datum, error: Datum, turn_speed: Datum) -> Datum {
    let desired = error.held(single(-(MAX_TURN_DEGREES as int)), single(MAX_TURN_DEGREES as int));
    model::plus(
        Format::Binary32,
        model::times(Format::Binary32, last, model::ratio(Format::Binary32, 4, 5)),
        model::times(Format::Binary32, desired, turn_speed),
    )
}

/// The yaw once the turn rate has acted on it.
#[verifier::opaque]
pub open spec fn yaw_turned(yaw: Datum, rate: Datum) -> Datum {
    model::plus(
        Format::Binary32,
        yaw,
        model::times(Format::Binary32, rate, model::ratio(Format::Binary32, 1, 10)),
    )
}

/// The velocity while the dragon clips terrain.
#[verifier::opaque]
pub open spec fn velocity_in_wall(velocity: VecView) -> VecView {
    velocity.scaled(model::ratio(Format::Binary64, 4, 5))
}

/// The velocity once the air has slowed the dragon down, the less the better it
/// flies along its heading.
#[verifier::opaque]
pub open spec fn velocity_dragged(velocity: VecView, heading: VecView) -> VecView {
    let along = velocity.normalized_or_zero().dot(heading);
    let slide = model::plus(
        Format::Binary64,
        model::ratio(Format::Binary64, 4, 5),
        model::over(
            Format::Binary64,
            model::times(
                Format::Binary64,
                model::ratio(Format::Binary64, 15, 100),
                model::plus(Format::Binary64, along, double(1)),
            ),
            double(2),
        ),
    );
    velocity.times(VecView { x: slide, y: model::ratio(Format::Binary64, 91, 100), z: slide })
}

impl DragonView {
    /// The dragon with another velocity.
    pub open spec fn with_velocity(self, velocity: VecView) -> DragonView {
        DragonView { base: BaseView { velocity, ..self.base }, ..self }
    }

    /// The dragon with another yaw.
    pub open spec fn with_yaw(self, yaw: Datum) -> DragonView {
        DragonView { base: BaseView { yaw, ..self.base }, ..self }
    }

    /// The dragon once its wings have got on by a tick.
    pub open spec fn flapped(self, ground_speed: Datum, lift: Datum) -> DragonView {
        DragonView {
            o_flap_time: self.flap_time,
            flap_time: flap_after(
                self.flap_time,
                self.phase.sits(),
                self.in_wall,
                flap_speed(ground_speed, lift),
            ),
            ..self
        }
    }

    /// The dragon once it has begun to climb toward a target.
    pub open spec fn climbed(self, target: VecView, speed: Datum) -> DragonView {
        self.with_velocity(
            velocity_climbing(
                self.base.velocity,
                steepness(target, self.base.position, speed),
            ),
        )
    }

    /// The dragon once it has turned by an error of its course.
    pub open spec fn turned(self, error: Datum, turn_speed: Datum) -> DragonView {
        let rate = turn_rate(self.y_rot_a, error, turn_speed);
        (DragonView { y_rot_a: rate, ..self }).with_yaw(yaw_turned(self.base.yaw, rate))
    }

    /// What the dragon moves by: its velocity, slowed down while it clips terrain.
    pub open spec fn movement(self) -> VecView {
        if self.in_wall {
            velocity_in_wall(self.base.velocity)
        } else {
            self.base.velocity
        }
    }

    /// The dragon once the air has slowed it down.
    pub open spec fn dragged(self, heading: VecView) -> DragonView {
        self.with_velocity(velocity_dragged(self.base.velocity, heading))
    }
}

/// A speed that is a number bounds a range around zero.
proof fn lemma_speed_bounds(speed: Datum)
    requires
        dragon::nought().at_most(speed),
    ensures
        model::widened(speed).negated().at_most(model::widened(speed)),
{
    assert(0 * vstd::arithmetic::power2::pow2(149) == 0);
    if speed is Finite {
        let units = speed->units;
        assert(speed->Finite_negative ==> units == 0);
        assert(units * vstd::arithmetic::power2::pow2(925) >= 0) by (nonlinear_arith);
        assert(units == 0 ==> units * vstd::arithmetic::power2::pow2(925) == 0) by (nonlinear_arith);
    }
}

impl EnderDragonEntity {
    /// Advances the wing beat.
    pub fn tick_flap_time(&mut self, ground_speed: Single, lift: Single)
        ensures
            final(self)@ == old(self)@.flapped(ground_speed@, lift@),
            *final(self) == (EnderDragonEntity {
                flap_time: final(self).flap_time,
                o_flap_time: final(self).o_flap_time,
                ..*old(self)
            }),
    {
        proof {
            reveal(flap_speed);
            reveal(flap_after);
        }
        self.o_flap_time = self.flap_time;
        let free = Single::ratio(1, 5).over(
            ground_speed.times(Single::whole(10)).plus(Single::whole(1)),
        ).times(lift);
        let beat = if self.phase_manager.current.is_sitting() {
            Single::ratio(1, 10)
        } else if self.in_wall {
            free.times(Single::ratio(1, 2))
        } else {
            free
        };
        self.flap_time = self.flap_time.plus(beat);
    }

    /// Begins to climb toward a target, and gives the way to it.
    pub fn climb(&mut self, target: Vec3, speed: Single) -> (r: Approach)
        requires
            dragon::nought().at_most(speed@),
        ensures
            final(self)@ == old(self)@.climbed(target@, speed@),
            *final(self) == (EnderDragonEntity {
                base: EntityBase { velocity: final(self).base.velocity, ..old(self).base },
                ..*old(self)
            }),
            r@ == approach_to(target@, old(self)@.base.position),
    {
        proof {
            reveal(steepness);
            reveal(velocity_climbing);
            reveal(approach_to);
        }
        let offset = target.minus(self.base.position);
        let distance = offset.dot(offset);
        let ground = offset.x.times(offset.x).plus(offset.z.times(offset.z)).root();
        let mut dy: Double = offset.y;
        if Double::whole(0).less(ground) {
            let most = speed.widened();
            proof {
                lemma_speed_bounds(speed@);
            }
            dy = dy.over(ground).held(most.negated(), most);
        }
        let climb = Vec3 {
            x: Double::whole(0),
            y: dy.times(Double::ratio(1, 100)),
            z: Double::whole(0),
        };
        self.base.velocity = self.base.velocity.plus(climb);
        Approach { dx: offset.x, dz: offset.z, distance, aim: offset.normalized_or_zero() }
    }

    /// Where the dragon is headed, given the sine and the cosine of its yaw.
    pub fn heading(&self, sine: Double, cosine: Double) -> (r: Vec3)
        ensures
            r@ == heading_of(sine@, self@.base.velocity.y, cosine@),
    {
        proof {
            reveal(heading_of);
        }
        Vec3 { x: sine, y: self.base.velocity.y, z: cosine.negated() }.normalized_or_zero()
    }

    /// Turns the dragon by an error of its course.
    pub fn turn(&mut self, error: Single, turn_speed: Single)
        ensures
            final(self)@ == old(self)@.turned(error@, turn_speed@),
            *final(self) == (EnderDragonEntity {
                base: EntityBase { yaw: final(self).base.yaw, ..old(self).base },
                y_rot_a: final(self).y_rot_a,
                ..*old(self)
            }),
    {
        proof {
            reveal(turn_rate);
            reveal(yaw_turned);
            vstd::arithmetic::power2::lemma_pow2_pos(149);
        }
        let desired = error.held(Single::whole(-MAX_TURN_DEGREES), Single::whole(MAX_TURN_DEGREES));
        self.y_rot_a = self.y_rot_a.times(Single::ratio(4, 5));
        self.y_rot_a = self.y_rot_a.plus(desired.times(turn_speed));
        self.base.yaw = self.base.yaw.plus(self.y_rot_a.times(Single::ratio(1, 10)));
    }

    /// What the dragon moves by.
    pub fn movement(&self) -> (r: Vec3)
        ensures
            r@ == self@.movement(),
    {
        proof {
            reveal(velocity_in_wall);
        }
        if self.in_wall {
            self.base.velocity.scaled(Double::ratio(4, 5))
        } else {
            self.base.velocity
        }
    }

    /// Slows the dragon down.
    pub fn drag(&mut self, heading: Vec3)
        ensures
            final(self)@ == old(self)@.dragged(heading@),
            *final(self) == (EnderDragonEntity {
                base: EntityBase { velocity: final(self).base.velocity, ..old(self).base },
                ..*old(self)
            }),
    {
        proof {
            reveal(velocity_dragged);
        }
        let velocity = self.base.velocity;
        let along = velocity.normalized_or_zero().dot(heading);
        let slide = Double::ratio(4, 5).plus(
            Double::ratio(15, 100).times(along.plus(Double::whole(1))).over(Double::whole(2)),
        );
        self.base.velocity = velocity.times(Vec3 { x: slide, y: Double::ratio(91, 100), z: slide });
    }
}

impl Approach {
    /// Whether the target is far enough off, to either side, to bother turning.
    pub fn is_off_course(&self) -> (r: bool)
        ensures
            r == self@.off_course(),
    {
        let epsilon = Double::ratio(1, 100_000);
        epsilon.less(self.dx.absolute()) || epsilon.less(self.dz.absolute())
    }

    /// The forward thrust.
    pub fn thrust(&self, alignment: Single) -> (r: Single)
        ensures
            r@ == self@.thrust(alignment@),
    {
        proof {
            reveal(ApproachView::thrust);
        }
        let span = Double::whole(2).over(self.distance.plus(Double::whole(1))).narrowed();
        Single::ratio(6, 100).times(alignment.times(span).plus(Single::whole(1).minus(span)))
    }

    /// How well a heading points at the target.
    pub fn alignment(&self, heading: Vec3) -> (r: Single)
        ensures
            r@ == self@.alignment(heading@),
    {
        proof {
            reveal(ApproachView::alignment);
        }
        heading.dot(self.aim).narrowed().plus(Single::ratio(1, 2)).over(Single::ratio(3, 2)).greater(
            Single::whole(0),
        )
    }
}

} // verus!

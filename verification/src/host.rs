//! What the dragon asks of the world it flies in, and the record of it.

use crate::block::BlockPos;
use crate::damage::DamageSource;
use crate::dragon;
use crate::dragon::{DragonView, EnderDragonEntity};
use crate::float::double::Double;
use crate::float::model::Datum;
use crate::float::single::Single;
use crate::phase::EnderDragonPhase;
use crate::vector::{Vec3, VecView};
use vstd::prelude::*;

verus! {

/// Which blocks count as ground.
#[derive(Clone, Copy, Debug, PartialEq, Eq, Structural)]
pub enum HeightmapType {
    MotionBlocking,
    MotionBlockingNoLeaves,
}

/// A speed to fly at. It is a number, and not below zero.
#[derive(Clone, Copy, Debug)]
pub struct FlySpeed {
    speed: Single,
}

impl FlySpeed {
    #[verifier::type_invariant]
    pub closed spec fn inv(self) -> bool {
        dragon::nought().at_most(self.speed@)
    }

    /// The speed as a number.
    pub closed spec fn number(self) -> Datum {
        self.speed@
    }

    /// A speed, unless the number is none or below zero.
    pub fn new(speed: Single) -> (r: Option<FlySpeed>)
        ensures
            r is Some <==> dragon::nought().at_most(speed@),
            r is Some ==> r->0.number() == speed@,
    {
        if Single::whole(0).at_most(speed) {
            Some(FlySpeed { speed })
        } else {
            None
        }
    }

    /// The speed as a number.
    pub fn get(self) -> (r: Single)
        ensures
            r@ == self.number(),
            dragon::nought().at_most(r@),
    {
        proof {
            use_type_invariant(&self);
        }
        self.speed
    }
}

/// What a hurt leaves the dragon with.
#[derive(Clone, Copy, Debug)]
pub struct Hurt {
    pub health: Single,
    /// A blow may push the dragon.
    pub velocity: Vec3,
}

/// What a tick of a phase leaves the dragon with.
#[derive(Clone, Copy, Debug)]
pub struct PhaseTick {
    pub position: Vec3,
    pub velocity: Vec3,
    pub yaw: Single,
    pub pitch: Single,
    /// The accumulated turn rate.
    pub y_rot_a: Single,
    /// The health to set, where the phase sets it.
    pub health: Option<Single>,
    /// The phase that takes over, where one does.
    pub next: Option<EnderDragonPhase>,
}

impl PhaseTick {
    /// A tick that leaves the dragon as it is.
    pub fn unchanged(dragon: &EnderDragonEntity) -> (r: PhaseTick)
        ensures
            r.position == dragon.base.position,
            r.velocity == dragon.base.velocity,
            r.yaw == dragon.base.yaw,
            r.pitch == dragon.base.pitch,
            r.y_rot_a == dragon.y_rot_a,
            r.health is None,
            r.next is None,
    {
        PhaseTick {
            position: dragon.base.position,
            velocity: dragon.base.velocity,
            yaw: dragon.base.yaw,
            pitch: dragon.base.pitch,
            y_rot_a: dragon.y_rot_a,
            health: None,
            next: None,
        }
    }
}

/// Where a move took the dragon.
#[derive(Debug)]
pub struct Moved<R> {
    pub position: Vec3,
    pub velocity: Vec3,
    /// Whether the move ran into a wall.
    pub horizontal_collision: bool,
    /// Whether the move ran into a floor or a ceiling.
    pub vertical_collision: bool,
    pub result: Option<R>,
}

/// The world around the dragon, the phases it can be in, and the elementary
/// functions. Nothing is taken for granted of any answer.
pub trait DragonHost: Sized {
    /// What the world reports of a move.
    type MoveResult;

    /// An entity of the world.
    type Entity;

    /// The angle, brought between minus and plus half a turn.
    fn wrap_degrees(&self, degrees: Single) -> Single;

    /// An angle in degrees, in radians.
    fn to_radians(&self, degrees: Single) -> Single;

    /// An angle in radians, in degrees.
    fn to_degrees(&self, radians: Single) -> Single;

    /// The sine of an angle in radians.
    fn sine(&self, angle: Double) -> Double;

    /// The cosine of an angle in radians.
    fn cosine(&self, angle: Double) -> Double;

    /// The cosine of an angle in radians, in 32 bits.
    fn cosine_single(&self, angle: Single) -> Single;

    /// The angle of a point at an offset, in radians.
    fn arc_tangent(&self, dx: Double, dz: Double) -> Double;

    /// The length of the longest side of a right triangle.
    fn hypotenuse(&self, x: Double, z: Double) -> Double;

    /// Two to the power of a number.
    fn power_of_two(&self, exponent: Single) -> Single;

    /// How fast a phase other than dying flies.
    fn fly_speed(&self, phase: EnderDragonPhase) -> FlySpeed;

    /// Where a phase other than dying flies to.
    fn fly_target_location(&self, phase: EnderDragonPhase) -> Option<Vec3>;

    /// How fast the dragon turns in a phase.
    fn turn_speed(&self, dragon: &EnderDragonEntity, phase: EnderDragonPhase) -> Single;

    /// Runs one tick of a phase other than dying.
    fn do_server_tick(&self, dragon: &EnderDragonEntity, phase: EnderDragonPhase) -> PhaseTick;

    /// Tells a phase other than dying that it begins.
    fn begin(&self, dragon: &EnderDragonEntity, phase: EnderDragonPhase);

    /// Tells a phase other than dying that it ends.
    fn end(&self, dragon: &EnderDragonEntity, phase: EnderDragonPhase);

    /// What a phase lets through of a hit.
    fn on_hurt(&self, phase: EnderDragonPhase, source: &DamageSource, damage: Single) -> Single;

    /// The ground at a block column.
    fn heightmap_pos(&self, kind: HeightmapType, pos: BlockPos) -> BlockPos;

    /// The entity of an id, where the world holds one.
    fn get_entity_by_id(&self, id: i32) -> Option<Self::Entity>;

    /// Whether an entity is a player.
    fn is_player(&self, entity: &Self::Entity) -> bool;

    /// Hurts the dragon as any living thing is hurt.
    fn default_hurt_server(
        &self,
        dragon: &EnderDragonEntity,
        source: &DamageSource,
        damage: Single,
    ) -> Hurt;

    /// Pushes the dragon along a direction in its own frame; gives its new velocity.
    fn move_relative(&self, dragon: &EnderDragonEntity, amount: Single, direction: Vec3) -> Vec3;

    /// Moves the dragon under its own power.
    fn move_entity(&self, dragon: &EnderDragonEntity, movement: Vec3) -> Moved<Self::MoveResult>;

    /// Sounds the wings, where they sweep down.
    fn process_flapping_movement(&self, dragon: &EnderDragonEntity);

    /// Keeps a height and a yaw in the flight history.
    fn record_flight(&self, y: Double, yaw: Single);

    /// Lets the blocks around the dragon act on it; gives its new velocity.
    fn apply_effects_from_blocks(&self, dragon: &EnderDragonEntity) -> Vec3;
}

/// One call of the host: what it was asked, and what it answered.
#[allow(inconsistent_fields)]
pub enum HostCall<H: DragonHost> {
    WrapDegrees { degrees: Datum, answer: Single },
    ToRadians { degrees: Datum, answer: Single },
    ToDegrees { radians: Datum, answer: Single },
    Sine { angle: Datum, answer: Double },
    Cosine { angle: Datum, answer: Double },
    CosineSingle { angle: Datum, answer: Single },
    ArcTangent { dx: Datum, dz: Datum, answer: Double },
    Hypotenuse { x: Datum, z: Datum, answer: Double },
    PowerOfTwo { exponent: Datum, answer: Single },
    FlySpeed { phase: EnderDragonPhase, answer: FlySpeed },
    FlyTargetLocation { phase: EnderDragonPhase, answer: Option<Vec3> },
    TurnSpeed { dragon: DragonView, phase: EnderDragonPhase, answer: Single },
    DoServerTick { dragon: DragonView, phase: EnderDragonPhase, answer: PhaseTick },
    Begin { dragon: DragonView, phase: EnderDragonPhase },
    End { dragon: DragonView, phase: EnderDragonPhase },
    OnHurt { phase: EnderDragonPhase, source: DamageSource, damage: Datum, answer: Single },
    HeightmapPos { kind: HeightmapType, pos: BlockPos, answer: BlockPos },
    GetEntityById { id: i32, answer: Option<H::Entity> },
    IsPlayer { entity: H::Entity, answer: bool },
    DefaultHurtServer { dragon: DragonView, source: DamageSource, damage: Datum, answer: Hurt },
    MoveRelative { dragon: DragonView, amount: Datum, direction: VecView, answer: Vec3 },
    MoveEntity { dragon: DragonView, movement: VecView, answer: Moved<H::MoveResult> },
    ProcessFlappingMovement { dragon: DragonView },
    RecordFlight { y: Datum, yaw: Datum },
    ApplyEffectsFromBlocks { dragon: DragonView, answer: Vec3 },
}

impl<H: DragonHost> HostCall<H> {
    /// Whether the host may give this answer when it is asked this.
    #[verifier::opaque]
    pub open spec fn holds(self, host: &H) -> bool {
        match self {
            HostCall::WrapDegrees { degrees, answer } => wrap_degrees_answered(
                host, degrees, answer,
            ),
            HostCall::ToRadians { degrees, answer } => to_radians_answered(host, degrees, answer),
            HostCall::ToDegrees { radians, answer } => to_degrees_answered(host, radians, answer),
            HostCall::Sine { angle, answer } => sine_answered(host, angle, answer),
            HostCall::Cosine { angle, answer } => cosine_answered(host, angle, answer),
            HostCall::CosineSingle { angle, answer } => cosine_single_answered(host, angle, answer),
            HostCall::ArcTangent { dx, dz, answer } => arc_tangent_answered(host, dx, dz, answer),
            HostCall::Hypotenuse { x, z, answer } => hypotenuse_answered(host, x, z, answer),
            HostCall::PowerOfTwo { exponent, answer } => power_of_two_answered(
                host, exponent, answer,
            ),
            HostCall::FlySpeed { phase, answer } => call_ensures(
                H::fly_speed, (host, phase), answer,
            ),
            HostCall::FlyTargetLocation { phase, answer } => call_ensures(
                H::fly_target_location, (host, phase), answer,
            ),
            HostCall::TurnSpeed { dragon, phase, answer } => turn_speed_answered(
                host, dragon, phase, answer,
            ),
            HostCall::DoServerTick { dragon, phase, answer } => do_server_tick_answered(
                host, dragon, phase, answer,
            ),
            HostCall::Begin { dragon, phase } => begin_answered(host, dragon, phase),
            HostCall::End { dragon, phase } => end_answered(host, dragon, phase),
            HostCall::OnHurt { phase, source, damage, answer } => on_hurt_answered(
                host, phase, source, damage, answer,
            ),
            HostCall::HeightmapPos { kind, pos, answer } => call_ensures(
                H::heightmap_pos, (host, kind, pos), answer,
            ),
            HostCall::GetEntityById { id, answer } => call_ensures(
                H::get_entity_by_id, (host, id), answer,
            ),
            HostCall::IsPlayer { entity, answer } => call_ensures(
                H::is_player, (host, &entity), answer,
            ),
            HostCall::DefaultHurtServer { dragon, source, damage, answer } => {
                default_hurt_server_answered(host, dragon, source, damage, answer)
            },
            HostCall::MoveRelative { dragon, amount, direction, answer } => move_relative_answered(
                host, dragon, amount, direction, answer,
            ),
            HostCall::MoveEntity { dragon, movement, answer } => move_entity_answered(
                host, dragon, movement, answer,
            ),
            HostCall::ProcessFlappingMovement { dragon } => process_flapping_movement_answered(
                host, dragon,
            ),
            HostCall::RecordFlight { y, yaw } => record_flight_answered(host, y, yaw),
            HostCall::ApplyEffectsFromBlocks { dragon, answer } => {
                apply_effects_from_blocks_answered(host, dragon, answer)
            },
        }
    }
}

/// Whether `wrap_degrees` may give this answer when it is asked this.
#[verifier::opaque]
pub open spec fn wrap_degrees_answered<H: DragonHost>(
    host: &H,
    degrees: Datum,
    answer: Single,
) -> bool {
    exists|asked_degrees: Single|
        {
            &&& #[trigger] call_ensures(H::wrap_degrees, (host, asked_degrees), answer)
            &&& asked_degrees@ == degrees
        }
}

/// Whether `to_radians` may give this answer when it is asked this.
#[verifier::opaque]
pub open spec fn to_radians_answered<H: DragonHost>(
    host: &H,
    degrees: Datum,
    answer: Single,
) -> bool {
    exists|asked_degrees: Single|
        {
            &&& #[trigger] call_ensures(H::to_radians, (host, asked_degrees), answer)
            &&& asked_degrees@ == degrees
        }
}

/// Whether `to_degrees` may give this answer when it is asked this.
#[verifier::opaque]
pub open spec fn to_degrees_answered<H: DragonHost>(
    host: &H,
    radians: Datum,
    answer: Single,
) -> bool {
    exists|asked_radians: Single|
        {
            &&& #[trigger] call_ensures(H::to_degrees, (host, asked_radians), answer)
            &&& asked_radians@ == radians
        }
}

/// Whether `sine` may give this answer when it is asked this.
#[verifier::opaque]
pub open spec fn sine_answered<H: DragonHost>(
    host: &H,
    angle: Datum,
    answer: Double,
) -> bool {
    exists|asked_angle: Double|
        {
            &&& #[trigger] call_ensures(H::sine, (host, asked_angle), answer)
            &&& asked_angle@ == angle
        }
}

/// Whether `cosine` may give this answer when it is asked this.
#[verifier::opaque]
pub open spec fn cosine_answered<H: DragonHost>(
    host: &H,
    angle: Datum,
    answer: Double,
) -> bool {
    exists|asked_angle: Double|
        {
            &&& #[trigger] call_ensures(H::cosine, (host, asked_angle), answer)
            &&& asked_angle@ == angle
        }
}

/// Whether `cosine_single` may give this answer when it is asked this.
#[verifier::opaque]
pub open spec fn cosine_single_answered<H: DragonHost>(
    host: &H,
    angle: Datum,
    answer: Single,
) -> bool {
    exists|asked_angle: Single|
        {
            &&& #[trigger] call_ensures(H::cosine_single, (host, asked_angle), answer)
            &&& asked_angle@ == angle
        }
}

/// Whether `arc_tangent` may give this answer when it is asked this.
#[verifier::opaque]
pub open spec fn arc_tangent_answered<H: DragonHost>(
    host: &H,
    dx: Datum,
    dz: Datum,
    answer: Double,
) -> bool {
    exists|asked_dx: Double, asked_dz: Double|
        {
            &&& #[trigger] call_ensures(H::arc_tangent, (host, asked_dx, asked_dz), answer)
            &&& asked_dx@ == dx
            &&& asked_dz@ == dz
        }
}

/// Whether `hypotenuse` may give this answer when it is asked this.
#[verifier::opaque]
pub open spec fn hypotenuse_answered<H: DragonHost>(
    host: &H,
    x: Datum,
    z: Datum,
    answer: Double,
) -> bool {
    exists|asked_x: Double, asked_z: Double|
        {
            &&& #[trigger] call_ensures(H::hypotenuse, (host, asked_x, asked_z), answer)
            &&& asked_x@ == x
            &&& asked_z@ == z
        }
}

/// Whether `power_of_two` may give this answer when it is asked this.
#[verifier::opaque]
pub open spec fn power_of_two_answered<H: DragonHost>(
    host: &H,
    exponent: Datum,
    answer: Single,
) -> bool {
    exists|asked_exponent: Single|
        {
            &&& #[trigger] call_ensures(H::power_of_two, (host, asked_exponent), answer)
            &&& asked_exponent@ == exponent
        }
}

/// Whether `turn_speed` may give this answer when it is asked this.
#[verifier::opaque]
pub open spec fn turn_speed_answered<H: DragonHost>(
    host: &H,
    dragon: DragonView,
    phase: EnderDragonPhase,
    answer: Single,
) -> bool {
    exists|d: EnderDragonEntity|
        {
            &&& #[trigger] call_ensures(H::turn_speed, (host, &d, phase), answer)
            &&& d@ == dragon
        }
}

/// Whether `do_server_tick` may give this answer when it is asked this.
#[verifier::opaque]
pub open spec fn do_server_tick_answered<H: DragonHost>(
    host: &H,
    dragon: DragonView,
    phase: EnderDragonPhase,
    answer: PhaseTick,
) -> bool {
    exists|d: EnderDragonEntity|
        {
            &&& #[trigger] call_ensures(H::do_server_tick, (host, &d, phase), answer)
            &&& d@ == dragon
        }
}

/// Whether `begin` may give this answer when it is asked this.
#[verifier::opaque]
pub open spec fn begin_answered<H: DragonHost>(
    host: &H,
    dragon: DragonView,
    phase: EnderDragonPhase,
) -> bool {
    exists|d: EnderDragonEntity|
        {
            &&& #[trigger] call_ensures(H::begin, (host, &d, phase), ())
            &&& d@ == dragon
        }
}

/// Whether `end` may give this answer when it is asked this.
#[verifier::opaque]
pub open spec fn end_answered<H: DragonHost>(
    host: &H,
    dragon: DragonView,
    phase: EnderDragonPhase,
) -> bool {
    exists|d: EnderDragonEntity|
        {
            &&& #[trigger] call_ensures(H::end, (host, &d, phase), ())
            &&& d@ == dragon
        }
}

/// Whether `on_hurt` may give this answer when it is asked this.
#[verifier::opaque]
pub open spec fn on_hurt_answered<H: DragonHost>(
    host: &H,
    phase: EnderDragonPhase,
    source: DamageSource,
    damage: Datum,
    answer: Single,
) -> bool {
    exists|asked_damage: Single|
        {
            &&& #[trigger] call_ensures(H::on_hurt, (host, phase, &source, asked_damage), answer)
            &&& asked_damage@ == damage
        }
}

/// Whether `default_hurt_server` may give this answer when it is asked this.
#[verifier::opaque]
pub open spec fn default_hurt_server_answered<H: DragonHost>(
    host: &H,
    dragon: DragonView,
    source: DamageSource,
    damage: Datum,
    answer: Hurt,
) -> bool {
    exists|d: EnderDragonEntity, asked_damage: Single|
        {
            &&& #[trigger] call_ensures(
                H::default_hurt_server,
                (host, &d, &source, asked_damage),
                answer,
            )
            &&& d@ == dragon
            &&& asked_damage@ == damage
        }
}

/// Whether `move_relative` may give this answer when it is asked this.
#[verifier::opaque]
pub open spec fn move_relative_answered<H: DragonHost>(
    host: &H,
    dragon: DragonView,
    amount: Datum,
    direction: VecView,
    answer: Vec3,
) -> bool {
    exists|d: EnderDragonEntity, asked_amount: Single, asked_direction: Vec3|
        {
            &&& #[trigger] call_ensures(
                H::move_relative,
                (host, &d, asked_amount, asked_direction),
                answer,
            )
            &&& d@ == dragon
            &&& asked_amount@ == amount
            &&& asked_direction@ == direction
        }
}

/// Whether `move_entity` may give this answer when it is asked this.
#[verifier::opaque]
pub open spec fn move_entity_answered<H: DragonHost>(
    host: &H,
    dragon: DragonView,
    movement: VecView,
    answer: Moved<H::MoveResult>,
) -> bool {
    exists|d: EnderDragonEntity, asked_movement: Vec3|
        {
            &&& #[trigger] call_ensures(H::move_entity, (host, &d, asked_movement), answer)
            &&& d@ == dragon
            &&& asked_movement@ == movement
        }
}

/// Whether `process_flapping_movement` may give this answer when it is asked this.
#[verifier::opaque]
pub open spec fn process_flapping_movement_answered<H: DragonHost>(
    host: &H,
    dragon: DragonView,
) -> bool {
    exists|d: EnderDragonEntity|
        {
            &&& #[trigger] call_ensures(H::process_flapping_movement, (host, &d), ())
            &&& d@ == dragon
        }
}

/// Whether `record_flight` may give this answer when it is asked this.
#[verifier::opaque]
pub open spec fn record_flight_answered<H: DragonHost>(
    host: &H,
    y: Datum,
    yaw: Datum,
) -> bool {
    exists|asked_y: Double, asked_yaw: Single|
        {
            &&& #[trigger] call_ensures(H::record_flight, (host, asked_y, asked_yaw), ())
            &&& asked_y@ == y
            &&& asked_yaw@ == yaw
        }
}

/// Whether `apply_effects_from_blocks` may give this answer when it is asked this.
#[verifier::opaque]
pub open spec fn apply_effects_from_blocks_answered<H: DragonHost>(
    host: &H,
    dragon: DragonView,
    answer: Vec3,
) -> bool {
    exists|d: EnderDragonEntity|
        {
            &&& #[trigger] call_ensures(H::apply_effects_from_blocks, (host, &d), answer)
            &&& d@ == dragon
        }
}

/// A host under watch: it can be called through this alone, and every call is on
/// record, in order.
pub struct Watched<'a, H: DragonHost> {
    host: &'a H,
    log: Ghost<Seq<HostCall<H>>>,
}

impl<'a, H: DragonHost> Watched<'a, H> {
    /// The host that is asked.
    pub closed spec fn host(self) -> &'a H {
        self.host
    }

    /// The calls so far.
    pub closed spec fn log(self) -> Seq<HostCall<H>> {
        self.log@
    }

    /// Whether one call was made since then.
    pub open spec fn called(self, before: Watched<'a, H>, call: HostCall<H>) -> bool {
        &&& self.host() == before.host()
        &&& self.log() == before.log().push(call)
        &&& call.holds(self.host())
    }

    /// Whether these calls were made since then, in this order, and no others.
    pub open spec fn extends(self, before: Watched<'a, H>, calls: Seq<HostCall<H>>) -> bool {
        &&& self.host() == before.host()
        &&& self.log() == before.log() + calls
        &&& forall|i: int| 0 <= i < calls.len() ==> #[trigger] calls[i].holds(self.host())
    }

    /// A host that has not been called yet.
    pub fn new(host: &'a H) -> (r: Watched<'a, H>)
        ensures
            r.host() == host,
            r.log() == Seq::<HostCall<H>>::empty(),
    {
        Watched { host, log: Ghost(Seq::empty()) }
    }

    /// The angle, brought between minus and plus half a turn.
    pub fn wrap_degrees(&mut self, degrees: Single) -> (r: Single)
        ensures
            call_ensures(H::wrap_degrees, (old(self).host(), degrees), r),
            final(self).called(
                *old(self),
                (HostCall::WrapDegrees {
                    degrees: degrees@,
                    answer: r,
                }),
            ),
    {
        let r = self.host.wrap_degrees(degrees);
        proof {
            let call = HostCall::<H>::WrapDegrees { degrees: degrees@, answer: r };
            assert(call.holds(self.host)) by {
                reveal(HostCall::holds);
                reveal(wrap_degrees_answered);
                assert(call->WrapDegrees_answer == r);
            }
            self.log@ = self.log@.push(call);
        }
        r
    }

    /// An angle in degrees, in radians.
    pub fn to_radians(&mut self, degrees: Single) -> (r: Single)
        ensures
            call_ensures(H::to_radians, (old(self).host(), degrees), r),
            final(self).called(*old(self), (HostCall::ToRadians { degrees: degrees@, answer: r })),
    {
        let r = self.host.to_radians(degrees);
        proof {
            let call = HostCall::<H>::ToRadians { degrees: degrees@, answer: r };
            assert(call.holds(self.host)) by {
                reveal(HostCall::holds);
                reveal(to_radians_answered);
                assert(call->ToRadians_answer == r);
            }
            self.log@ = self.log@.push(call);
        }
        r
    }

    /// An angle in radians, in degrees.
    pub fn to_degrees(&mut self, radians: Single) -> (r: Single)
        ensures
            call_ensures(H::to_degrees, (old(self).host(), radians), r),
            final(self).called(*old(self), (HostCall::ToDegrees { radians: radians@, answer: r })),
    {
        let r = self.host.to_degrees(radians);
        proof {
            let call = HostCall::<H>::ToDegrees { radians: radians@, answer: r };
            assert(call.holds(self.host)) by {
                reveal(HostCall::holds);
                reveal(to_degrees_answered);
                assert(call->ToDegrees_answer == r);
            }
            self.log@ = self.log@.push(call);
        }
        r
    }

    /// The sine of an angle in radians.
    pub fn sine(&mut self, angle: Double) -> (r: Double)
        ensures
            call_ensures(H::sine, (old(self).host(), angle), r),
            final(self).called(*old(self), (HostCall::Sine { angle: angle@, answer: r })),
    {
        let r = self.host.sine(angle);
        proof {
            let call = HostCall::<H>::Sine { angle: angle@, answer: r };
            assert(call.holds(self.host)) by {
                reveal(HostCall::holds);
                reveal(sine_answered);
                assert(call->Sine_answer == r);
            }
            self.log@ = self.log@.push(call);
        }
        r
    }

    /// The cosine of an angle in radians.
    pub fn cosine(&mut self, angle: Double) -> (r: Double)
        ensures
            call_ensures(H::cosine, (old(self).host(), angle), r),
            final(self).called(*old(self), (HostCall::Cosine { angle: angle@, answer: r })),
    {
        let r = self.host.cosine(angle);
        proof {
            let call = HostCall::<H>::Cosine { angle: angle@, answer: r };
            assert(call.holds(self.host)) by {
                reveal(HostCall::holds);
                reveal(cosine_answered);
                assert(call->Cosine_answer == r);
            }
            self.log@ = self.log@.push(call);
        }
        r
    }

    /// The cosine of an angle in radians, in 32 bits.
    pub fn cosine_single(&mut self, angle: Single) -> (r: Single)
        ensures
            call_ensures(H::cosine_single, (old(self).host(), angle), r),
            final(self).called(*old(self), (HostCall::CosineSingle { angle: angle@, answer: r })),
    {
        let r = self.host.cosine_single(angle);
        proof {
            let call = HostCall::<H>::CosineSingle { angle: angle@, answer: r };
            assert(call.holds(self.host)) by {
                reveal(HostCall::holds);
                reveal(cosine_single_answered);
                assert(call->CosineSingle_answer == r);
            }
            self.log@ = self.log@.push(call);
        }
        r
    }

    /// The angle of a point at an offset, in radians.
    pub fn arc_tangent(&mut self, dx: Double, dz: Double) -> (r: Double)
        ensures
            call_ensures(H::arc_tangent, (old(self).host(), dx, dz), r),
            final(self).called(*old(self), (HostCall::ArcTangent { dx: dx@, dz: dz@, answer: r })),
    {
        let r = self.host.arc_tangent(dx, dz);
        proof {
            let call = HostCall::<H>::ArcTangent { dx: dx@, dz: dz@, answer: r };
            assert(call.holds(self.host)) by {
                reveal(HostCall::holds);
                reveal(arc_tangent_answered);
                assert(call->ArcTangent_answer == r);
            }
            self.log@ = self.log@.push(call);
        }
        r
    }

    /// The length of the longest side of a right triangle.
    pub fn hypotenuse(&mut self, x: Double, z: Double) -> (r: Double)
        ensures
            call_ensures(H::hypotenuse, (old(self).host(), x, z), r),
            final(self).called(*old(self), (HostCall::Hypotenuse { x: x@, z: z@, answer: r })),
    {
        let r = self.host.hypotenuse(x, z);
        proof {
            let call = HostCall::<H>::Hypotenuse { x: x@, z: z@, answer: r };
            assert(call.holds(self.host)) by {
                reveal(HostCall::holds);
                reveal(hypotenuse_answered);
                assert(call->Hypotenuse_answer == r);
            }
            self.log@ = self.log@.push(call);
        }
        r
    }

    /// Two to the power of a number.
    pub fn power_of_two(&mut self, exponent: Single) -> (r: Single)
        ensures
            call_ensures(H::power_of_two, (old(self).host(), exponent), r),
            final(self).called(
                *old(self),
                (HostCall::PowerOfTwo {
                    exponent: exponent@,
                    answer: r,
                }),
            ),
    {
        let r = self.host.power_of_two(exponent);
        proof {
            let call = HostCall::<H>::PowerOfTwo { exponent: exponent@, answer: r };
            assert(call.holds(self.host)) by {
                reveal(HostCall::holds);
                reveal(power_of_two_answered);
                assert(call->PowerOfTwo_answer == r);
            }
            self.log@ = self.log@.push(call);
        }
        r
    }

    /// How fast a phase other than dying flies.
    pub fn fly_speed(&mut self, phase: EnderDragonPhase) -> (r: FlySpeed)
        ensures
            call_ensures(H::fly_speed, (old(self).host(), phase), r),
            final(self).called(*old(self), (HostCall::FlySpeed { phase, answer: r })),
    {
        let r = self.host.fly_speed(phase);
        proof {
            let call = HostCall::<H>::FlySpeed { phase, answer: r };
            assert(call.holds(self.host)) by {
                reveal(HostCall::holds);
            }
            self.log@ = self.log@.push(call);
        }
        r
    }

    /// Where a phase other than dying flies to.
    pub fn fly_target_location(&mut self, phase: EnderDragonPhase) -> (r: Option<Vec3>)
        ensures
            call_ensures(H::fly_target_location, (old(self).host(), phase), r),
            final(self).called(*old(self), (HostCall::FlyTargetLocation { phase, answer: r })),
    {
        let r = self.host.fly_target_location(phase);
        proof {
            let call = HostCall::<H>::FlyTargetLocation { phase, answer: r };
            assert(call.holds(self.host)) by {
                reveal(HostCall::holds);
            }
            self.log@ = self.log@.push(call);
        }
        r
    }

    /// How fast the dragon turns in a phase.
    pub fn turn_speed(&mut self, dragon: &EnderDragonEntity, phase: EnderDragonPhase) -> (r: Single)
        ensures
            call_ensures(H::turn_speed, (old(self).host(), dragon, phase), r),
            final(self).called(
                *old(self),
                (HostCall::TurnSpeed {
                    dragon: dragon@,
                    phase,
                    answer: r,
                }),
            ),
    {
        let r = self.host.turn_speed(dragon, phase);
        proof {
            let call = HostCall::<H>::TurnSpeed { dragon: dragon@, phase, answer: r };
            assert(call.holds(self.host)) by {
                reveal(HostCall::holds);
                reveal(turn_speed_answered);
                assert(call->TurnSpeed_answer == r);
            }
            self.log@ = self.log@.push(call);
        }
        r
    }

    /// Runs one tick of a phase other than dying.
    pub fn do_server_tick(
        &mut self,
        dragon: &EnderDragonEntity,
        phase: EnderDragonPhase,
    ) -> (r: PhaseTick)
        ensures
            call_ensures(H::do_server_tick, (old(self).host(), dragon, phase), r),
            final(self).called(
                *old(self),
                (HostCall::DoServerTick {
                    dragon: dragon@,
                    phase,
                    answer: r,
                }),
            ),
    {
        let r = self.host.do_server_tick(dragon, phase);
        proof {
            let call = HostCall::<H>::DoServerTick { dragon: dragon@, phase, answer: r };
            assert(call.holds(self.host)) by {
                reveal(HostCall::holds);
                reveal(do_server_tick_answered);
                assert(call->DoServerTick_answer == r);
            }
            self.log@ = self.log@.push(call);
        }
        r
    }

    /// Tells a phase other than dying that it begins.
    pub fn begin(&mut self, dragon: &EnderDragonEntity, phase: EnderDragonPhase)
        ensures
            call_ensures(H::begin, (old(self).host(), dragon, phase), ()),
            final(self).called(*old(self), (HostCall::Begin { dragon: dragon@, phase })),
    {
        self.host.begin(dragon, phase);
        proof {
            let call = HostCall::<H>::Begin { dragon: dragon@, phase };
            assert(call.holds(self.host)) by {
                reveal(HostCall::holds);
                reveal(begin_answered);
            }
            self.log@ = self.log@.push(call);
        }
    }

    /// Tells a phase other than dying that it ends.
    pub fn end(&mut self, dragon: &EnderDragonEntity, phase: EnderDragonPhase)
        ensures
            call_ensures(H::end, (old(self).host(), dragon, phase), ()),
            final(self).called(*old(self), (HostCall::End { dragon: dragon@, phase })),
    {
        self.host.end(dragon, phase);
        proof {
            let call = HostCall::<H>::End { dragon: dragon@, phase };
            assert(call.holds(self.host)) by {
                reveal(HostCall::holds);
                reveal(end_answered);
            }
            self.log@ = self.log@.push(call);
        }
    }

    /// What a phase lets through of a hit.
    pub fn on_hurt(
        &mut self,
        phase: EnderDragonPhase,
        source: &DamageSource,
        damage: Single,
    ) -> (r: Single)
        ensures
            call_ensures(H::on_hurt, (old(self).host(), phase, source, damage), r),
            final(self).called(
                *old(self),
                (HostCall::OnHurt {
                    phase,
                    source: *source,
                    damage: damage@,
                    answer: r,
                }),
            ),
    {
        let r = self.host.on_hurt(phase, source, damage);
        proof {
            let call = HostCall::<H>::OnHurt { phase, source: *source, damage: damage@, answer: r };
            assert(call.holds(self.host)) by {
                reveal(HostCall::holds);
                reveal(on_hurt_answered);
                assert(call->OnHurt_answer == r);
            }
            self.log@ = self.log@.push(call);
        }
        r
    }

    /// The ground at a block column.
    pub fn heightmap_pos(&mut self, kind: HeightmapType, pos: BlockPos) -> (r: BlockPos)
        ensures
            call_ensures(H::heightmap_pos, (old(self).host(), kind, pos), r),
            final(self).called(*old(self), (HostCall::HeightmapPos { kind, pos, answer: r })),
    {
        let r = self.host.heightmap_pos(kind, pos);
        proof {
            let call = HostCall::<H>::HeightmapPos { kind, pos, answer: r };
            assert(call.holds(self.host)) by {
                reveal(HostCall::holds);
            }
            self.log@ = self.log@.push(call);
        }
        r
    }

    /// The entity of an id, where the world holds one.
    pub fn get_entity_by_id(&mut self, id: i32) -> (r: Option<H::Entity>)
        ensures
            call_ensures(H::get_entity_by_id, (old(self).host(), id), r),
            final(self).called(*old(self), (HostCall::GetEntityById { id, answer: r })),
    {
        let r = self.host.get_entity_by_id(id);
        proof {
            let call = HostCall::<H>::GetEntityById { id, answer: r };
            assert(call.holds(self.host)) by {
                reveal(HostCall::holds);
            }
            self.log@ = self.log@.push(call);
        }
        r
    }

    /// Whether an entity is a player.
    pub fn is_player(&mut self, entity: &H::Entity) -> (r: bool)
        ensures
            call_ensures(H::is_player, (old(self).host(), entity), r),
            final(self).called(*old(self), (HostCall::IsPlayer { entity: *entity, answer: r })),
    {
        let r = self.host.is_player(entity);
        proof {
            let call = HostCall::<H>::IsPlayer { entity: *entity, answer: r };
            assert(call.holds(self.host)) by {
                reveal(HostCall::holds);
            }
            self.log@ = self.log@.push(call);
        }
        r
    }

    /// Hurts the dragon as any living thing is hurt.
    pub fn default_hurt_server(
        &mut self,
        dragon: &EnderDragonEntity,
        source: &DamageSource,
        damage: Single,
    ) -> (r: Hurt)
        ensures
            call_ensures(H::default_hurt_server, (old(self).host(), dragon, source, damage), r),
            final(self).called(
                *old(self),
                (HostCall::DefaultHurtServer {
                    dragon: dragon@,
                    source: *source,
                    damage: damage@,
                    answer: r,
                }),
            ),
    {
        let r = self.host.default_hurt_server(dragon, source, damage);
        proof {
            let call = HostCall::<H>::DefaultHurtServer {
                dragon: dragon@,
                source: *source,
                damage: damage@,
                answer: r,
            };
            assert(call.holds(self.host)) by {
                reveal(HostCall::holds);
                reveal(default_hurt_server_answered);
                assert(call->DefaultHurtServer_answer == r);
            }
            self.log@ = self.log@.push(call);
        }
        r
    }

    /// Pushes the dragon along a direction in its own frame; gives its new velocity.
    pub fn move_relative(
        &mut self,
        dragon: &EnderDragonEntity,
        amount: Single,
        direction: Vec3,
    ) -> (r: Vec3)
        ensures
            call_ensures(H::move_relative, (old(self).host(), dragon, amount, direction), r),
            final(self).called(
                *old(self),
                (HostCall::MoveRelative {
                    dragon: dragon@,
                    amount: amount@,
                    direction: direction@,
                    answer: r,
                }),
            ),
    {
        let r = self.host.move_relative(dragon, amount, direction);
        proof {
            let call = HostCall::<H>::MoveRelative {
                dragon: dragon@,
                amount: amount@,
                direction: direction@,
                answer: r,
            };
            assert(call.holds(self.host)) by {
                reveal(HostCall::holds);
                reveal(move_relative_answered);
                assert(call->MoveRelative_answer == r);
            }
            self.log@ = self.log@.push(call);
        }
        r
    }

    /// Moves the dragon under its own power.
    pub fn move_entity(
        &mut self,
        dragon: &EnderDragonEntity,
        movement: Vec3,
    ) -> (r: Moved<H::MoveResult>)
        ensures
            call_ensures(H::move_entity, (old(self).host(), dragon, movement), r),
            final(self).called(
                *old(self),
                (HostCall::MoveEntity {
                    dragon: dragon@,
                    movement: movement@,
                    answer: r,
                }),
            ),
    {
        let r = self.host.move_entity(dragon, movement);
        proof {
            let call = HostCall::<H>::MoveEntity {
                dragon: dragon@,
                movement: movement@,
                answer: r,
            };
            assert(call.holds(self.host)) by {
                reveal(HostCall::holds);
                reveal(move_entity_answered);
                assert(call->MoveEntity_answer == r);
            }
            self.log@ = self.log@.push(call);
        }
        r
    }

    /// Sounds the wings, where they sweep down.
    pub fn process_flapping_movement(&mut self, dragon: &EnderDragonEntity)
        ensures
            call_ensures(H::process_flapping_movement, (old(self).host(), dragon), ()),
            final(self).called(*old(self), (HostCall::ProcessFlappingMovement { dragon: dragon@ })),
    {
        self.host.process_flapping_movement(dragon);
        proof {
            let call = HostCall::<H>::ProcessFlappingMovement { dragon: dragon@ };
            assert(call.holds(self.host)) by {
                reveal(HostCall::holds);
                reveal(process_flapping_movement_answered);
            }
            self.log@ = self.log@.push(call);
        }
    }

    /// Keeps a height and a yaw in the flight history.
    pub fn record_flight(&mut self, y: Double, yaw: Single)
        ensures
            call_ensures(H::record_flight, (old(self).host(), y, yaw), ()),
            final(self).called(*old(self), (HostCall::RecordFlight { y: y@, yaw: yaw@ })),
    {
        self.host.record_flight(y, yaw);
        proof {
            let call = HostCall::<H>::RecordFlight { y: y@, yaw: yaw@ };
            assert(call.holds(self.host)) by {
                reveal(HostCall::holds);
                reveal(record_flight_answered);
            }
            self.log@ = self.log@.push(call);
        }
    }

    /// Lets the blocks around the dragon act on it; gives its new velocity.
    pub fn apply_effects_from_blocks(&mut self, dragon: &EnderDragonEntity) -> (r: Vec3)
        ensures
            call_ensures(H::apply_effects_from_blocks, (old(self).host(), dragon), r),
            final(self).called(
                *old(self),
                (HostCall::ApplyEffectsFromBlocks {
                    dragon: dragon@,
                    answer: r,
                }),
            ),
    {
        let r = self.host.apply_effects_from_blocks(dragon);
        proof {
            let call = HostCall::<H>::ApplyEffectsFromBlocks { dragon: dragon@, answer: r };
            assert(call.holds(self.host)) by {
                reveal(HostCall::holds);
                reveal(apply_effects_from_blocks_answered);
                assert(call->ApplyEffectsFromBlocks_answer == r);
            }
            self.log@ = self.log@.push(call);
        }
        r
    }
}

/// Calls and then further calls are all of them together.
pub proof fn lemma_extends<'a, H: DragonHost>(
    a: Watched<'a, H>,
    b: Watched<'a, H>,
    c: Watched<'a, H>,
    first: Seq<HostCall<H>>,
    second: Seq<HostCall<H>>,
)
    requires
        b.extends(a, first),
        c.extends(b, second),
    ensures
        c.extends(a, first + second),
{
    assert(c.log() =~= a.log() + (first + second));
    let calls = first + second;
    assert forall|i: int| 0 <= i < calls.len() implies #[trigger] calls[i].holds(c.host()) by {
        if i < first.len() {
            assert(calls[i] == first[i]);
        } else {
            assert(calls[i] == second[i - first.len()]);
        }
    }
}

/// One call and then another.
pub proof fn lemma_two_calls<'a, H: DragonHost>(
    a: Watched<'a, H>,
    b: Watched<'a, H>,
    c: Watched<'a, H>,
    first: HostCall<H>,
    second: HostCall<H>,
)
    requires
        b.called(a, first),
        c.called(b, second),
    ensures
        c.extends(a, seq![first, second]),
{
    assert(c.log() =~= a.log() + seq![first, second]);
}

/// No call was made since now.
pub proof fn lemma_uncalled<'a, H: DragonHost>(a: Watched<'a, H>)
    ensures
        a.extends(a, Seq::empty()),
{
    assert(a.log() =~= a.log() + Seq::<HostCall<H>>::empty());
}

} // verus!

//! One tick of the dragon's own AI, which stands in for that of other mobs.

use crate::block;
use crate::block::BlockPos;
use crate::death;
use crate::dragon;
use crate::dragon::{BaseView, DragonView, EnderDragonEntity};
use crate::flight;
use crate::flight::{Approach, ApproachView};
use crate::float::double::Double;
use crate::float::model;
use crate::float::model::{Datum, Format};
use crate::float::single::Single;
use crate::host;
use crate::host::{DragonHost, FlySpeed, HeightmapType, HostCall, Moved, PhaseTick, Watched};
use crate::phase::EnderDragonPhase;
use crate::vector::{Vec3, VecView};
use vstd::prelude::*;

verus! {

/// What is answered while a phase runs for a tick.
pub struct PhaseAnswers {
    /// The ground under the podium, for the dying phase.
    pub surface: BlockPos,
    /// What any other phase leaves the dragon with.
    pub tick: PhaseTick,
}

/// What is answered while the dragon turns to face along its yaw.
pub struct FacingAnswers {
    pub yaw: Single,
    pub radians: Single,
    pub sine: Double,
    pub cosine: Double,
}

/// What is answered while the dragon corrects its course.
pub struct CourseAnswers {
    pub arc: Double,
    pub bearing: Single,
    pub error: Single,
    pub turn_speed: Single,
}

/// What is answered while the dragon moves.
pub struct MoveAnswers<H: DragonHost> {
    pub pushed: Vec3,
    pub moved: Moved<H::MoveResult>,
}

/// What is answered while the dragon steers.
pub struct SteerAnswers<H: DragonHost> {
    pub goal: Option<Vec3>,
    pub speed: FlySpeed,
    pub facing: FacingAnswers,
    pub course: CourseAnswers,
    pub moving: MoveAnswers<H>,
}

/// What is answered while the dragon beats its wings.
pub struct WingAnswers {
    pub ground_speed: Double,
    pub lift: Single,
    pub yaw: Single,
}

/// What is answered in a tick of the AI.
pub struct StepAnswers<H: DragonHost> {
    pub wings: WingAnswers,
    pub first: PhaseAnswers,
    pub second: PhaseAnswers,
    pub steer: SteerAnswers<H>,
    pub velocity: Vec3,
}

/// What is answered on the beat of the wings.
pub struct FlapAnswers {
    pub now: Single,
    pub before: Single,
}

/// The course error that a bearing leaves.
pub open spec fn course_error(bearing: Datum, yaw: Datum) -> Datum {
    model::minus(
        Format::Binary32,
        model::minus(Format::Binary32, flight::single(180), bearing),
        yaw,
    )
}

/// How fast the dragon flies in a phase.
pub open spec fn pace(phase: EnderDragonPhase, speed: FlySpeed) -> Datum {
    if phase == EnderDragonPhase::Dying {
        flight::single(death::DEATH_FLY_SPEED as int)
    } else {
        speed.number()
    }
}

/// The direction the dragon is pushed in, in its own frame.
pub open spec fn forward() -> VecView {
    VecView { x: flight::double(0), y: flight::double(0), z: flight::double(-1) }
}

impl DragonView {
    /// Whether the dragon's AI is switched off: the lowest of its flags is set.
    pub open spec fn has_no_ai(self) -> bool {
        self.mob_flags % 2 == 1
    }

    /// The dragon after a tick of its dying phase. A target that is latched stays.
    pub open spec fn dying_ticked(self, surface: VecView) -> DragonView {
        let target = match self.death_target {
            Some(latched) => latched,
            None => surface,
        };
        (DragonView { death_target: Some(target), ..self }).with_health(
            death::dying_health(
                death::arrived(
                    target,
                    self.base.position,
                    self.base.horizontal_collision,
                    self.base.vertical_collision,
                ),
            ),
        )
    }

    /// The dragon with what a tick of a phase leaves it with, still in its phase.
    pub open spec fn carried(self, tick: PhaseTick) -> DragonView {
        let after = DragonView {
            base: BaseView {
                position: tick.position@,
                velocity: tick.velocity@,
                yaw: tick.yaw@,
                pitch: tick.pitch@,
                ..self.base
            },
            y_rot_a: tick.y_rot_a@,
            ..self
        };
        match tick.health {
            Some(health) => after.with_health(health@),
            None => after,
        }
    }

    /// The dragon after a tick of a phase.
    pub open spec fn acted(self, tick: PhaseTick) -> DragonView {
        match tick.next {
            Some(other) => self.carried(tick).with_phase(other),
            None => self.carried(tick),
        }
    }

    /// The dragon once a phase has run for a tick.
    pub open spec fn ran(self, phase: EnderDragonPhase, answers: PhaseAnswers) -> DragonView {
        if phase == EnderDragonPhase::Dying {
            self.dying_ticked(answers.surface.bottom_center())
        } else {
            self.acted(answers.tick)
        }
    }

    /// The dragon once its phase has run, and if it has switched, the new one as
    /// well, but not a third.
    pub open spec fn phases_ticked(self, first: PhaseAnswers, second: PhaseAnswers) -> DragonView {
        let between = self.ran(self.phase, first);
        if between.phase != self.phase {
            between.ran(between.phase, second)
        } else {
            between
        }
    }

    /// Where the dragon flies to in a phase.
    pub open spec fn goal(self, phase: EnderDragonPhase, goal: Option<Vec3>) -> Option<VecView> {
        if phase == EnderDragonPhase::Dying {
            self.death_target
        } else {
            death::spot(goal)
        }
    }

    /// The dragon once it has corrected its course, where it is off it.
    pub open spec fn corrected(self, way: ApproachView, answers: CourseAnswers) -> DragonView {
        if way.off_course() {
            self.turned(answers.error@, answers.turn_speed@)
        } else {
            self
        }
    }

    /// The dragon where a move took it.
    pub open spec fn moved_to<R>(self, moved: Moved<R>) -> DragonView {
        DragonView {
            base: BaseView {
                position: moved.position@,
                velocity: moved.velocity@,
                horizontal_collision: moved.horizontal_collision,
                vertical_collision: moved.vertical_collision,
                ..self.base
            },
            ..self
        }
    }

    /// The dragon once it was pushed, has moved, and was slowed down.
    pub open spec fn moved_on<H: DragonHost>(
        self,
        heading: VecView,
        answers: MoveAnswers<H>,
    ) -> DragonView {
        self.with_velocity(answers.pushed@).moved_to(answers.moved).dragged(heading)
    }

    /// The dragon once it has begun to climb and faces along its yaw.
    pub open spec fn faced<H: DragonHost>(
        self,
        phase: EnderDragonPhase,
        target: VecView,
        answers: SteerAnswers<H>,
    ) -> DragonView {
        self.climbed(target, pace(phase, answers.speed)).with_yaw(answers.facing.yaw@)
    }

    /// Where the dragon is headed as it steers: it rises with the velocity that the
    /// climb left.
    pub open spec fn headed<H: DragonHost>(
        self,
        phase: EnderDragonPhase,
        target: VecView,
        answers: SteerAnswers<H>,
    ) -> VecView {
        flight::heading_of(
            answers.facing.sine@,
            self.faced(phase, target, answers).base.velocity.y,
            answers.facing.cosine@,
        )
    }

    /// The dragon once it has steered toward a target. The climb comes first; then
    /// comes the turn, where the dragon is off course; then the push forward, the
    /// move, and the drag along the heading from before the turn.
    pub open spec fn steered<H: DragonHost>(
        self,
        phase: EnderDragonPhase,
        target: VecView,
        answers: SteerAnswers<H>,
    ) -> DragonView {
        let way = flight::approach_to(target, self.base.position);
        self.faced(phase, target, answers).corrected(way, answers.course).moved_on(
            self.headed(phase, target, answers),
            answers.moving,
        )
    }

    /// The dragon once it has steered, where it has a target at all.
    pub open spec fn flown<H: DragonHost>(
        self,
        phase: EnderDragonPhase,
        answers: SteerAnswers<H>,
    ) -> DragonView {
        match self.goal(phase, answers.goal) {
            Some(target) => self.steered(phase, target, answers),
            None => self,
        }
    }

    /// The dragon once its wings have got on by a tick and its yaw is in range.
    pub open spec fn winged(self, answers: WingAnswers) -> DragonView {
        self.flapped(model::narrowed(answers.ground_speed@), answers.lift@).with_yaw(answers.yaw@)
    }

    /// The dragon once it has ticked its phases, has steered by the phase that it is
    /// in then, and was acted on by the blocks around it.
    pub open spec fn acted_out<H: DragonHost>(self, answers: StepAnswers<H>) -> DragonView {
        let thought = self.phases_ticked(answers.first, answers.second);
        let flown = thought.flown(thought.phase, answers.steer);
        DragonView { body_yaw: flown.base.yaw, ..flown.with_velocity(answers.velocity@) }
    }

    /// The dragon after a tick of its AI. A dead dragon is moved by its death
    /// animation instead, and without AI the wings are held mid-beat.
    pub open spec fn stepped<H: DragonHost>(self, answers: StepAnswers<H>) -> DragonView {
        if self.dead() {
            self
        } else if self.has_no_ai() {
            DragonView {
                flap_time: model::ratio(Format::Binary32, 1, 2),
                ..self.winged(answers.wings)
            }
        } else {
            self.winged(answers.wings).acted_out(answers)
        }
    }
}

/// What is asked while a phase runs for a tick. The dying phase asks for the ground
/// under the podium while no target is latched; any other phase is ticked once.
pub open spec fn phase_calls<H: DragonHost>(
    before: DragonView,
    phase: EnderDragonPhase,
    answers: PhaseAnswers,
) -> Seq<HostCall<H>> {
    if phase == EnderDragonPhase::Dying {
        if before.death_target is Some {
            Seq::empty()
        } else {
            seq![
                HostCall::HeightmapPos {
                    kind: HeightmapType::MotionBlocking,
                    pos: before.fight_origin,
                    answer: answers.surface,
                },
            ]
        }
    } else {
        seq![HostCall::DoServerTick { dragon: before, phase, answer: answers.tick }] + next_calls(
            before,
            answers.tick,
        )
    }
}

/// What the phases are told of where a tick of one leads.
pub open spec fn next_calls<H: DragonHost>(before: DragonView, tick: PhaseTick) -> Seq<
    HostCall<H>,
> {
    match tick.next {
        Some(other) => dragon::switch_calls(before.carried(tick), other),
        None => Seq::empty(),
    }
}

/// What is asked while the dragon ticks its phases: one of them runs, and a second
/// one only where the first has switched to it.
pub open spec fn phases_calls<H: DragonHost>(
    before: DragonView,
    first: PhaseAnswers,
    second: PhaseAnswers,
) -> Seq<HostCall<H>> {
    let between = before.ran(before.phase, first);
    let once = phase_calls(before, before.phase, first);
    if between.phase != before.phase {
        once + phase_calls(between, between.phase, second)
    } else {
        once
    }
}

/// What is asked while the dragon turns to face along its yaw.
pub open spec fn facing_calls<H: DragonHost>(before: DragonView, answers: FacingAnswers) -> Seq<
    HostCall<H>,
> {
    let angle = model::widened(answers.radians@);
    seq![
        HostCall::WrapDegrees { degrees: before.base.yaw, answer: answers.yaw },
        HostCall::ToRadians { degrees: answers.yaw@, answer: answers.radians },
        HostCall::Sine { angle, answer: answers.sine },
        HostCall::Cosine { angle, answer: answers.cosine },
    ]
}

/// What is asked while the dragon corrects its course.
pub open spec fn course_calls<H: DragonHost>(
    before: DragonView,
    phase: EnderDragonPhase,
    way: ApproachView,
    answers: CourseAnswers,
) -> Seq<HostCall<H>> {
    if way.off_course() {
        seq![
            HostCall::ArcTangent { dx: way.dx, dz: way.dz, answer: answers.arc },
            HostCall::ToDegrees {
                radians: model::narrowed(answers.arc@),
                answer: answers.bearing,
            },
            HostCall::WrapDegrees {
                degrees: course_error(answers.bearing@, before.base.yaw),
                answer: answers.error,
            },
            HostCall::TurnSpeed { dragon: before, phase, answer: answers.turn_speed },
        ]
    } else {
        Seq::empty()
    }
}

/// What is asked while the dragon moves: one push forward, and one move.
pub open spec fn move_calls<H: DragonHost>(
    before: DragonView,
    way: ApproachView,
    heading: VecView,
    answers: MoveAnswers<H>,
) -> Seq<HostCall<H>> {
    let pushed = before.with_velocity(answers.pushed@);
    seq![
        HostCall::MoveRelative {
            dragon: before,
            amount: way.thrust(way.alignment(heading)),
            direction: forward(),
            answer: answers.pushed,
        },
        HostCall::MoveEntity {
            dragon: pushed,
            movement: pushed.movement(),
            answer: answers.moved,
        },
    ]
}

/// What is asked for a target to fly to.
pub open spec fn goal_calls<H: DragonHost>(phase: EnderDragonPhase, goal: Option<Vec3>) -> Seq<
    HostCall<H>,
> {
    if phase == EnderDragonPhase::Dying {
        Seq::empty()
    } else {
        seq![HostCall::FlyTargetLocation { phase, answer: goal }]
    }
}

/// What is asked for a speed to fly at.
pub open spec fn pace_calls<H: DragonHost>(phase: EnderDragonPhase, speed: FlySpeed) -> Seq<
    HostCall<H>,
> {
    if phase == EnderDragonPhase::Dying {
        Seq::empty()
    } else {
        seq![HostCall::FlySpeed { phase, answer: speed }]
    }
}

/// What is asked while the dragon steers: for a target, and nothing more where it
/// has none.
pub open spec fn steer_calls<H: DragonHost>(
    before: DragonView,
    phase: EnderDragonPhase,
    answers: SteerAnswers<H>,
) -> Seq<HostCall<H>> {
    match before.goal(phase, answers.goal) {
        Some(target) => {
            let way = flight::approach_to(target, before.base.position);
            let faced = before.faced(phase, target, answers);
            goal_calls(phase, answers.goal) + pace_calls(phase, answers.speed) + facing_calls(
                before,
                answers.facing,
            ) + course_calls(faced, phase, way, answers.course) + move_calls(
                faced.corrected(way, answers.course),
                way,
                before.headed(phase, target, answers),
                answers.moving,
            )
        },
        None => goal_calls(phase, answers.goal),
    }
}

/// What steering reports of the move.
pub open spec fn steer_result<H: DragonHost>(
    before: DragonView,
    phase: EnderDragonPhase,
    answers: SteerAnswers<H>,
) -> Option<H::MoveResult> {
    match before.goal(phase, answers.goal) {
        Some(_) => answers.moving.moved.result,
        None => None,
    }
}

/// What is asked while the dragon beats its wings.
pub open spec fn wing_calls<H: DragonHost>(before: DragonView, answers: WingAnswers) -> Seq<
    HostCall<H>,
> {
    seq![
        HostCall::Hypotenuse {
            x: before.base.velocity.x,
            z: before.base.velocity.z,
            answer: answers.ground_speed,
        },
        HostCall::PowerOfTwo {
            exponent: model::narrowed(before.base.velocity.y),
            answer: answers.lift,
        },
        HostCall::WrapDegrees { degrees: before.base.yaw, answer: answers.yaw },
    ]
}

/// What is asked once the dragon's wings are done: its place is kept, its phases
/// are ticked, it steers, and the blocks around it act on it.
pub open spec fn acting_calls<H: DragonHost>(before: DragonView, answers: StepAnswers<H>) -> Seq<
    HostCall<H>,
> {
    let thought = before.phases_ticked(answers.first, answers.second);
    let flown = thought.flown(thought.phase, answers.steer);
    seq![HostCall::RecordFlight { y: before.base.position.y, yaw: before.base.yaw }] + phases_calls(
        before,
        answers.first,
        answers.second,
    ) + steer_calls(thought, thought.phase, answers.steer) + seq![
        HostCall::ApplyEffectsFromBlocks { dragon: flown, answer: answers.velocity },
    ]
}

/// What is asked in a tick of the AI. Without AI no phase is ticked.
pub open spec fn step_calls<H: DragonHost>(before: DragonView, answers: StepAnswers<H>) -> Seq<
    HostCall<H>,
> {
    let sounded = seq![HostCall::ProcessFlappingMovement { dragon: before }];
    if before.dead() {
        sounded
    } else if before.has_no_ai() {
        sounded + wing_calls(before, answers.wings)
    } else {
        sounded + wing_calls(before, answers.wings) + acting_calls(
            before.winged(answers.wings),
            answers,
        )
    }
}

/// What a tick of the AI reports of the move.
pub open spec fn step_result<H: DragonHost>(before: DragonView, answers: StepAnswers<H>) -> Option<
    H::MoveResult,
> {
    if before.dead() || before.has_no_ai() {
        None
    } else {
        act_result(before.winged(answers.wings), answers)
    }
}

/// What is reported of the move once the wings are done.
pub open spec fn act_result<H: DragonHost>(before: DragonView, answers: StepAnswers<H>) -> Option<
    H::MoveResult,
> {
    let thought = before.phases_ticked(answers.first, answers.second);
    steer_result(thought, thought.phase, answers.steer)
}

/// What is asked on the beat of the wings.
pub open spec fn flap_calls<H: DragonHost>(dragon: DragonView, answers: FlapAnswers) -> Seq<
    HostCall<H>,
> {
    let tau = model::decode(Format::Binary32, flight::TAU_BITS as nat);
    seq![
        HostCall::CosineSingle {
            angle: model::times(Format::Binary32, dragon.flap_time, tau),
            answer: answers.now,
        },
        HostCall::CosineSingle {
            angle: model::times(Format::Binary32, dragon.o_flap_time, tau),
            answer: answers.before,
        },
    ]
}

/// Whether the wings sweep down: the last beat was low, and this one is not.
pub open spec fn sweeps_down(now: Datum, before: Datum) -> bool {
    let low = model::ratio(Format::Binary32, 3, 10).negated();
    before.at_most(low) && low.at_most(now)
}

impl EnderDragonEntity {
    /// Whether the dragon's AI is switched off.
    pub fn is_no_ai(&self) -> (r: bool)
        ensures
            r == self@.has_no_ai(),
    {
        let flags = self.mob_flags;
        proof {
            assert((flags & 1i8) != 0i8 <==> flags as int % 2 == 1) by (bit_vector);
        }
        (flags & 1) != 0
    }

    /// One tick of the dying phase.
    pub fn tick_dying(&mut self, surface: Option<BlockPos>)
        requires
            old(self).wf(),
            old(self)@.death_target is None ==> surface is Some,
        ensures
            final(self).wf(),
            final(self)@ == old(self)@.dying_ticked(surface->0.bottom_center()),
    {
        let health = self.phase_manager.death.do_server_tick(
            self.base.position,
            surface,
            self.base.horizontal_collision,
            self.base.vertical_collision,
        );
        self.set_health(health);
    }

    /// Runs a phase for one tick.
    pub fn run_phase<H: DragonHost>(&mut self, host: &mut Watched<H>, phase: EnderDragonPhase)
        requires
            old(self).wf(),
        ensures
            final(self).wf(),
            old(self)@.in_sync() ==> final(self)@.in_sync(),
            exists|answers: PhaseAnswers|
                {
                    &&& #[trigger] final(host).extends(
                        *old(host),
                        phase_calls(old(self)@, phase, answers),
                    )
                    &&& final(self)@ == old(self)@.ran(phase, answers)
                },
    {
        let ghost before = self@;
        let ghost start = *host;
        if phase == EnderDragonPhase::Dying {
            let surface: Option<BlockPos> = match self.phase_manager.death.target_location {
                Some(_) => None,
                None => Some(
                    host.heightmap_pos(
                        HeightmapType::MotionBlocking,
                        block::end_podium_location(self.fight_origin),
                    ),
                ),
            };
            self.tick_dying(surface);
            proof {
                let ground = match surface {
                    Some(found) => found,
                    None => self.fight_origin,
                };
                let answers = PhaseAnswers { surface: ground, tick: arbitrary() };
                assert(host.log() =~= start.log() + phase_calls::<H>(before, phase, answers));
                assert(host.extends(start, phase_calls(before, phase, answers)));
            }
        } else {
            let tick = host.do_server_tick(self, phase);
            let ghost ticked = *host;
            let ghost asked = seq![
                HostCall::<H>::DoServerTick { dragon: before, phase, answer: tick },
            ];
            self.take_phase_tick(host, tick);
            proof {
                let answers = PhaseAnswers { surface: self.fight_origin, tick };
                assert(ticked.log() =~= start.log() + asked);
                assert(ticked.extends(start, asked));
                host::lemma_extends(start, ticked, *host, asked, next_calls(before, tick));
                assert(host.extends(start, phase_calls(before, phase, answers)));
            }
        }
    }

    /// Takes over what a tick of a phase leaves the dragon with.
    pub fn take_phase_tick<H: DragonHost>(&mut self, host: &mut Watched<H>, tick: PhaseTick)
        requires
            old(self).wf(),
        ensures
            final(self).wf(),
            old(self)@.in_sync() ==> final(self)@.in_sync(),
            final(self)@ == old(self)@.acted(tick),
            final(host).extends(*old(host), next_calls(old(self)@, tick)),
    {
        proof {
            host::lemma_uncalled(*host);
        }
        self.base.position = tick.position;
        self.base.velocity = tick.velocity;
        self.base.yaw = tick.yaw;
        self.base.pitch = tick.pitch;
        self.y_rot_a = tick.y_rot_a;
        match tick.health {
            Some(health) => self.set_health(health),
            None => {},
        }
        match tick.next {
            Some(other) => self.set_phase(host, other),
            None => {},
        }
    }

    /// Ticks the active phase, and once more if it switched.
    ///
    /// Exactly one switch is chased, and the steering that follows goes by the new
    /// phase, so a phase that hands off gets to set its successor's target in the
    /// same tick.
    pub fn tick_phase<H: DragonHost>(&mut self, host: &mut Watched<H>) -> (r: EnderDragonPhase)
        requires
            old(self).wf(),
        ensures
            final(self).wf(),
            old(self)@.in_sync() ==> final(self)@.in_sync(),
            r == final(self)@.phase,
            exists|first: PhaseAnswers, second: PhaseAnswers|
                {
                    &&& #[trigger] final(host).extends(
                        *old(host),
                        phases_calls(old(self)@, first, second),
                    )
                    &&& final(self)@ == old(self)@.phases_ticked(first, second)
                },
    {
        let ghost opening = self@;
        let ghost start = *host;
        let before = self.phase_manager.current_phase();
        self.run_phase(host, before);
        let ghost between = self@;
        let ghost once = *host;
        let ghost first = choose|first: PhaseAnswers|
            {
                &&& #[trigger] once.extends(start, phase_calls(opening, before, first))
                &&& between == opening.ran(before, first)
            };
        let ghost mut second = first;
        let after = self.phase_manager.current_phase();
        if after != before {
            self.run_phase(host, after);
            proof {
                second = choose|second: PhaseAnswers|
                    {
                        &&& #[trigger] host.extends(once, phase_calls(between, after, second))
                        &&& self@ == between.ran(after, second)
                    };
                host::lemma_extends(
                    start,
                    once,
                    *host,
                    phase_calls(opening, before, first),
                    phase_calls(between, after, second),
                );
            }
        }
        proof {
            assert(host.extends(start, phases_calls(opening, first, second)));
        }
        self.phase_manager.current_phase()
    }

    /// Brings the yaw in range, and gives where the dragon is headed.
    pub fn face<H: DragonHost>(&mut self, host: &mut Watched<H>) -> (r: Vec3)
        ensures
            exists|answers: FacingAnswers|
                {
                    &&& #[trigger] final(host).extends(
                        *old(host),
                        facing_calls(old(self)@, answers),
                    )
                    &&& final(self)@ == old(self)@.with_yaw(answers.yaw@)
                    &&& r@ == flight::heading_of(
                        answers.sine@,
                        old(self)@.base.velocity.y,
                        answers.cosine@,
                    )
                },
    {
        let ghost before = self@;
        let ghost start = *host;
        let yaw = host.wrap_degrees(self.base.yaw);
        self.base.yaw = yaw;
        let radians = host.to_radians(yaw);
        let angle = radians.widened();
        let sine = host.sine(angle);
        let cosine = host.cosine(angle);
        proof {
            let answers = FacingAnswers { yaw, radians, sine, cosine };
            assert(host.log() =~= start.log() + facing_calls::<H>(before, answers));
            assert(host.extends(start, facing_calls(before, answers)));
        }
        self.heading(sine, cosine)
    }

    /// Turns the dragon toward its target, where it is off course.
    pub fn correct_course<H: DragonHost>(
        &mut self,
        host: &mut Watched<H>,
        phase: EnderDragonPhase,
        way: &Approach,
    )
        ensures
            exists|answers: CourseAnswers|
                {
                    &&& #[trigger] final(host).extends(
                        *old(host),
                        course_calls(old(self)@, phase, way@, answers),
                    )
                    &&& final(self)@ == old(self)@.corrected(way@, answers)
                },
    {
        let ghost before = self@;
        let ghost start = *host;
        if way.is_off_course() {
            let arc = host.arc_tangent(way.dx, way.dz);
            let bearing = host.to_degrees(arc.narrowed());
            let off_by = Single::whole(180).minus(bearing).minus(self.base.yaw);
            let error = host.wrap_degrees(off_by);
            let turn_speed = host.turn_speed(self, phase);
            self.turn(error, turn_speed);
            proof {
                let answers = CourseAnswers { arc, bearing, error, turn_speed };
                let calls = course_calls::<H>(before, phase, way@, answers);
                assert(host.log() =~= start.log() + calls);
                assert(host.extends(start, calls));
            }
        } else {
            proof {
                host::lemma_uncalled(start);
                let answers: CourseAnswers = arbitrary();
                assert(host.extends(start, course_calls(before, phase, way@, answers)));
            }
        }
    }

    /// Pushes the dragon forward, moves it, and slows it down.
    #[verifier::rlimit(30)]
    pub fn move_on<H: DragonHost>(
        &mut self,
        host: &mut Watched<H>,
        way: &Approach,
        heading: Vec3,
    ) -> (r: Option<H::MoveResult>)
        ensures
            exists|answers: MoveAnswers<H>|
                {
                    &&& #[trigger] final(host).extends(
                        *old(host),
                        move_calls(old(self)@, way@, heading@, answers),
                    )
                    &&& final(self)@ == old(self)@.moved_on(heading@, answers)
                    &&& r == answers.moved.result
                },
    {
        let ghost before = self@;
        let ghost start = *host;
        let amount = way.thrust(way.alignment(heading));
        let ahead = Vec3 { x: Double::whole(0), y: Double::whole(0), z: Double::whole(-1) };
        let pushed = host.move_relative(self, amount, ahead);
        let ghost shoved = *host;
        self.base.velocity = pushed;
        let movement = self.movement();
        let moved = host.move_entity(self, movement);
        self.base.position = moved.position;
        self.base.velocity = moved.velocity;
        self.base.horizontal_collision = moved.horizontal_collision;
        self.base.vertical_collision = moved.vertical_collision;
        proof {
            let answers = MoveAnswers::<H> { pushed, moved };
            let calls = move_calls(before, way@, heading@, answers);
            assert(self@ == before.with_velocity(pushed@).moved_to(moved));
            host::lemma_two_calls(start, shoved, *host, calls[0], calls[1]);
            assert(calls =~= seq![calls[0], calls[1]]);
        }
        self.drag(heading);
        moved.result
    }

    /// Flies the dragon toward the active phase's target.
    #[verifier::rlimit(40)]
    pub fn steer_towards_phase_target<H: DragonHost>(
        &mut self,
        host: &mut Watched<H>,
        phase: EnderDragonPhase,
    ) -> (r: Option<H::MoveResult>)
        ensures
            exists|answers: SteerAnswers<H>|
                {
                    &&& #[trigger] final(host).extends(
                        *old(host),
                        steer_calls(old(self)@, phase, answers),
                    )
                    &&& final(self)@ == old(self)@.flown(phase, answers)
                    &&& r == steer_result(old(self)@, phase, answers)
                },
            old(self).wf() ==> final(self).wf(),
            old(self)@.in_sync() ==> final(self)@.in_sync(),
    {
        let ghost before = self@;
        let ghost start = *host;
        proof {
            host::lemma_uncalled(start);
        }
        let goal = if phase == EnderDragonPhase::Dying {
            self.phase_manager.death.fly_target_location()
        } else {
            host.fly_target_location(phase)
        };
        let ghost aimed = *host;
        proof {
            assert(aimed.log() =~= start.log() + goal_calls::<H>(phase, goal));
            assert(aimed.extends(start, goal_calls(phase, goal)));
        }
        let target = match goal {
            Some(point) => point,
            None => {
                proof {
                    let answers = SteerAnswers::<H> { goal, ..arbitrary() };
                    assert(host.extends(start, steer_calls(before, phase, answers)));
                }
                return None;
            },
        };
        let ghost mut swift: FlySpeed = arbitrary();
        let speed = if phase == EnderDragonPhase::Dying {
            self.phase_manager.death.fly_speed()
        } else {
            let answer = host.fly_speed(phase);
            proof {
                swift = answer;
            }
            answer.get()
        };
        let ghost paced = *host;
        let ghost mut calls = goal_calls::<H>(phase, goal) + pace_calls(phase, swift);
        proof {
            host::lemma_uncalled(aimed);
            assert(paced.log() =~= aimed.log() + pace_calls::<H>(phase, swift));
            assert(paced.extends(aimed, pace_calls(phase, swift)));
            host::lemma_extends(
                start,
                aimed,
                paced,
                goal_calls(phase, goal),
                pace_calls(phase, swift),
            );
        }
        let way = self.climb(target, speed);
        let ghost climbed = self@;

        let heading = self.face(host);
        let ghost facing = choose|facing: FacingAnswers|
            {
                &&& #[trigger] host.extends(paced, facing_calls(climbed, facing))
                &&& self@ == climbed.with_yaw(facing.yaw@)
                &&& heading@ == flight::heading_of(
                    facing.sine@,
                    climbed.base.velocity.y,
                    facing.cosine@,
                )
            };
        let ghost facing_there = *host;
        let ghost faced = self@;
        proof {
            host::lemma_extends(start, paced, *host, calls, facing_calls(climbed, facing));
            assert(facing_calls::<H>(climbed, facing) == facing_calls::<H>(before, facing));
            calls = calls + facing_calls(before, facing);
        }

        self.correct_course(host, phase, &way);
        let ghost course = choose|course: CourseAnswers|
            {
                &&& #[trigger] host.extends(facing_there, course_calls(faced, phase, way@, course))
                &&& self@ == faced.corrected(way@, course)
            };
        let ghost on_course = *host;
        let ghost turned = self@;
        proof {
            host::lemma_extends(
                start,
                facing_there,
                *host,
                calls,
                course_calls(faced, phase, way@, course),
            );
            calls = calls + course_calls(faced, phase, way@, course);
        }

        let result = self.move_on(host, &way, heading);
        proof {
            let moving = choose|moving: MoveAnswers<H>|
                {
                    &&& #[trigger] host.extends(
                        on_course,
                        move_calls(turned, way@, heading@, moving),
                    )
                    &&& self@ == turned.moved_on(heading@, moving)
                    &&& result == moving.moved.result
                };
            host::lemma_extends(
                start,
                on_course,
                *host,
                calls,
                move_calls(turned, way@, heading@, moving),
            );
            let answers = SteerAnswers { goal, speed: swift, facing, course, moving };
            assert(faced == before.faced(phase, target@, answers));
            assert(heading@ == before.headed(phase, target@, answers));
            assert(host.extends(start, steer_calls(before, phase, answers)));
        }
        result
    }

    /// Gets the wings on by a tick, and brings the yaw in range.
    pub fn beat_wings<H: DragonHost>(&mut self, host: &mut Watched<H>)
        ensures
            exists|answers: WingAnswers|
                {
                    &&& #[trigger] final(host).extends(*old(host), wing_calls(old(self)@, answers))
                    &&& final(self)@ == old(self)@.winged(answers)
                },
    {
        let ghost before = self@;
        let ghost start = *host;
        let velocity = self.base.velocity;
        let ground_speed = host.hypotenuse(velocity.x, velocity.z);
        let lift = host.power_of_two(velocity.y.narrowed());
        self.tick_flap_time(ground_speed.narrowed(), lift);
        let yaw = host.wrap_degrees(self.base.yaw);
        self.base.yaw = yaw;
        proof {
            let answers = WingAnswers { ground_speed, lift, yaw };
            assert(host.log() =~= start.log() + wing_calls::<H>(before, answers));
            assert(host.extends(start, wing_calls(before, answers)));
        }
    }

    /// What the AI does once the wings are done.
    #[verifier::rlimit(40)]
    pub fn act<H: DragonHost>(&mut self, host: &mut Watched<H>) -> (r: Option<H::MoveResult>)
        requires
            old(self).wf(),
        ensures
            final(self).wf(),
            old(self)@.in_sync() ==> final(self)@.in_sync(),
            exists|answers: StepAnswers<H>|
                {
                    &&& #[trigger] final(host).extends(
                        *old(host),
                        acting_calls(old(self)@, answers),
                    )
                    &&& final(self)@ == old(self)@.acted_out(answers)
                    &&& r == act_result(old(self)@, answers)
                },
    {
        let ghost before = self@;
        let ghost start = *host;
        host.record_flight(self.base.position.y, self.base.yaw);
        let ghost kept = *host;
        let ghost mut calls = seq![
            HostCall::<H>::RecordFlight { y: before.base.position.y, yaw: before.base.yaw },
        ];
        proof {
            assert(kept.log() =~= start.log() + calls);
            assert(kept.extends(start, calls));
        }
        let phase = self.tick_phase(host);
        let ghost thought = self@;
        let ghost ticked = *host;
        let ghost (first, second) = choose|first: PhaseAnswers, second: PhaseAnswers|
            {
                &&& #[trigger] ticked.extends(kept, phases_calls(before, first, second))
                &&& thought == before.phases_ticked(first, second)
            };
        proof {
            host::lemma_extends(start, kept, ticked, calls, phases_calls(before, first, second));
            calls = calls + phases_calls(before, first, second);
        }
        let result = self.steer_towards_phase_target(host, phase);
        let ghost flown = self@;
        let ghost arrived = *host;
        let ghost steer = choose|steer: SteerAnswers<H>|
            {
                &&& #[trigger] arrived.extends(ticked, steer_calls(thought, phase, steer))
                &&& flown == thought.flown(phase, steer)
                &&& result == steer_result(thought, phase, steer)
            };
        proof {
            host::lemma_extends(start, ticked, arrived, calls, steer_calls(thought, phase, steer));
            calls = calls + steer_calls(thought, phase, steer);
        }
        let velocity = host.apply_effects_from_blocks(self);
        self.base.velocity = velocity;
        self.body_yaw = self.base.yaw;
        proof {
            let answers = StepAnswers { wings: arbitrary(), first, second, steer, velocity };
            let affected = seq![
                HostCall::<H>::ApplyEffectsFromBlocks { dragon: flown, answer: velocity },
            ];
            assert(host.log() =~= arrived.log() + affected);
            assert(host.extends(arrived, affected));
            host::lemma_extends(start, arrived, *host, calls, affected);
            assert(host.extends(start, acting_calls(before, answers)));
        }
        result
    }

    /// One tick of the AI.
    ///
    /// The dragon steers from its phase rather than from movement input, and a
    /// dying dragon is moved by its death animation instead.
    #[verifier::rlimit(30)]
    pub fn dragon_ai_step<H: DragonHost>(&mut self, host: &mut Watched<H>) -> (r: Option<
        H::MoveResult,
    >)
        requires
            old(self).wf(),
        ensures
            final(self).wf(),
            old(self)@.in_sync() ==> final(self)@.in_sync(),
            exists|answers: StepAnswers<H>|
                {
                    &&& #[trigger] final(host).extends(*old(host), step_calls(old(self)@, answers))
                    &&& final(self)@ == old(self)@.stepped(answers)
                    &&& r == step_result(old(self)@, answers)
                },
    {
        let ghost before = self@;
        let ghost start = *host;
        host.process_flapping_movement(self);
        let ghost sounded = *host;
        let ghost mut calls = seq![HostCall::<H>::ProcessFlappingMovement { dragon: before }];
        proof {
            assert(sounded.log() =~= start.log() + calls);
            assert(sounded.extends(start, calls));
        }
        if self.is_dead_or_dying() {
            proof {
                let answers: StepAnswers<H> = arbitrary();
                assert(host.extends(start, step_calls(before, answers)));
            }
            return None;
        }
        self.beat_wings(host);
        let ghost wings = choose|wings: WingAnswers|
            {
                &&& #[trigger] host.extends(sounded, wing_calls(before, wings))
                &&& self@ == before.winged(wings)
            };
        proof {
            host::lemma_extends(start, sounded, *host, calls, wing_calls(before, wings));
            calls = calls + wing_calls(before, wings);
        }
        if self.is_no_ai() {
            self.flap_time = Single::ratio(1, 2);
            proof {
                let answers = StepAnswers::<H> { wings, ..arbitrary() };
                assert(host.extends(start, step_calls(before, answers)));
            }
            return None;
        }
        let ghost winged = self@;
        let ghost beaten = *host;
        let result = self.act(host);
        proof {
            let answers = choose|answers: StepAnswers<H>|
                {
                    &&& #[trigger] host.extends(beaten, acting_calls(winged, answers))
                    &&& self@ == winged.acted_out(answers)
                    &&& result == act_result(winged, answers)
                };
            host::lemma_extends(start, beaten, *host, calls, acting_calls(winged, answers));
            let whole = StepAnswers { wings, ..answers };
            assert(acting_calls(winged, whole) == acting_calls(winged, answers));
            assert(host.extends(start, step_calls(before, whole)));
        }
        result
    }

    /// Whether the wings are at the point of the beat where they sweep down.
    pub fn is_flapping<H: DragonHost>(&self, host: &mut Watched<H>) -> (r: bool)
        ensures
            exists|answers: FlapAnswers|
                {
                    &&& #[trigger] final(host).extends(*old(host), flap_calls(self@, answers))
                    &&& r == sweeps_down(answers.now@, answers.before@)
                },
    {
        let ghost start = *host;
        let tau = Single::from_bits(flight::TAU_BITS);
        let now = host.cosine_single(self.flap_time.times(tau));
        let before = host.cosine_single(self.o_flap_time.times(tau));
        proof {
            let answers = FlapAnswers { now, before };
            assert(host.log() =~= start.log() + flap_calls::<H>(self@, answers));
            assert(host.extends(start, flap_calls(self@, answers)));
        }
        EnderDragonEntity::is_sweeping_down(now, before)
    }

    /// Whether the wings sweep down, given the cosines of this beat and the last.
    pub fn is_sweeping_down(now: Single, before: Single) -> (r: bool)
        ensures
            r == sweeps_down(now@, before@),
    {
        let low = Single::ratio(3, 10).negated();
        before.at_most(low) && low.at_most(now)
    }

    /// One tick of the AI, where the dragon is in a world at all.
    pub fn ai_step<H: DragonHost>(&mut self, level: Option<&mut Watched<H>>) -> (r: Option<
        H::MoveResult,
    >)
        requires
            old(self).wf(),
        ensures
            final(self).wf(),
            old(self)@.in_sync() ==> final(self)@.in_sync(),
            match level {
                Some(host) => exists|answers: StepAnswers<H>|
                    {
                        &&& #[trigger] final(host).extends(
                            *host,
                            step_calls(old(self)@, answers),
                        )
                        &&& final(self)@ == old(self)@.stepped(answers)
                        &&& r == step_result(old(self)@, answers)
                    },
                None => *final(self) == *old(self) && r is None,
            },
    {
        match level {
            Some(host) => self.dragon_ai_step(host),
            None => None,
        }
    }
}

} // verus!

//! What holds of the phases: how they are run, switched, saved and stepped through.

use crate::brain;
use crate::brain::{PhaseAnswers, SteerAnswers, StepAnswers};
use crate::dragon;
use crate::dragon::{BaseView, DragonView, EnderDragonEntity};
use crate::float::model;
use crate::float::model::{Datum, Format};
use crate::float::single::Single;
use crate::host::{DragonHost, HostCall, PhaseTick, Watched};
use crate::part::{EntityType, PartKind};
use crate::phase::EnderDragonPhase;
use crate::save;
use crate::save::NbtTag;
use vstd::prelude::*;
use vstd::arithmetic::power2::*;

verus! {

/// The number each phase goes by, and which phases are perches.
pub proof fn phases_by_number(phase: EnderDragonPhase)
    ensures
        phase.number() == match phase {
            EnderDragonPhase::HoldingPattern => 0int,
            EnderDragonPhase::StrafePlayer => 1,
            EnderDragonPhase::LandingApproach => 2,
            EnderDragonPhase::Landing => 3,
            EnderDragonPhase::Takeoff => 4,
            EnderDragonPhase::SittingFlaming => 5,
            EnderDragonPhase::SittingScanning => 6,
            EnderDragonPhase::SittingAttacking => 7,
            EnderDragonPhase::ChargingPlayer => 8,
            EnderDragonPhase::Dying => 9,
            EnderDragonPhase::Hovering => 10,
        },
        phase.sits() <==> 5 <= phase.number() <= 7 || phase.number() == 10,
{
}

/// Health that is set stays as it is within its bounds, and is brought to the nearer
/// bound from outside of them. Nothing else changes.
pub proof fn health_is_brought_into_bounds(dragon: DragonView, health: Datum)
    requires
        dragon::nought().at_most(dragon.max_health),
    ensures
        ({
            let after = dragon.with_health(health);
            let none = Datum::Finite { negative: false, units: 0 };
            &&& none.at_most(health) && health.at_most(dragon.max_health) ==> after.health == health
            &&& health.less(none) ==> after.health == none
            &&& dragon.max_health.less(health) ==> after.health == dragon.max_health
            &&& after == (DragonView { health: after.health, ..dragon })
        }),
{
    assert(0 * pow2(149) == 0);
}

/// The dragon is dead exactly where its health is a number that is not above zero.
pub proof fn death_goes_by_health(dragon: DragonView)
    ensures
        dragon.health is Nan ==> !dragon.dead(),
        dragon.health is Finite ==> (dragon.dead() <==> dragon.health.signed() <= 0),
        dragon.health matches Datum::Infinite { negative } ==> (dragon.dead() <==> negative),
{
    assert(0 * pow2(149) == 0);
}

/// A switch of phases changes the phase and what clients know of it, and nothing else
/// but that the dying phase starts with no target. The phase that is left is told so
/// on the dragon as it was, and the one that is entered on the dragon as it is then;
/// the dying phase is told neither. To switch to the phase it is in changes nothing
/// and tells nobody.
pub proof fn a_switch_is_a_switch<H: DragonHost>(dragon: DragonView, phase: EnderDragonPhase)
    ensures
        ({
            let after = dragon.with_phase(phase);
            let calls = dragon::switch_calls::<H>(dragon, phase);
            &&& after.phase == phase
            &&& after == (DragonView {
                phase,
                synced_phase: after.synced_phase,
                death_target: after.death_target,
                ..dragon
            })
            &&& phase == dragon.phase ==> after == dragon && calls.len() == 0
            &&& phase != dragon.phase ==> {
                &&& after.synced_phase == phase.number()
                &&& phase == EnderDragonPhase::Dying ==> after.death_target is None
                &&& phase != EnderDragonPhase::Dying ==> after.death_target == dragon.death_target
                &&& dragon.phase != EnderDragonPhase::Dying && phase != EnderDragonPhase::Dying
                    ==> calls == seq![
                    HostCall::<H>::End { dragon, phase: dragon.phase },
                    HostCall::<H>::Begin { dragon: after, phase },
                ]
                &&& dragon.phase == EnderDragonPhase::Dying ==> calls == seq![
                    HostCall::<H>::Begin { dragon: after, phase },
                ]
                &&& phase == EnderDragonPhase::Dying ==> calls == seq![
                    HostCall::<H>::End { dragon, phase: dragon.phase },
                ]
            }
        }),
{
    let after = dragon.with_phase(phase);
    let calls = dragon::switch_calls::<H>(dragon, phase);
    if phase != dragon.phase {
        if dragon.phase == EnderDragonPhase::Dying {
            assert(calls =~= seq![HostCall::<H>::Begin { dragon: after, phase }]);
        } else if phase == EnderDragonPhase::Dying {
            assert(calls =~= seq![HostCall::<H>::End { dragon, phase: dragon.phase }]);
        } else {
            assert(calls =~= seq![
                HostCall::<H>::End { dragon, phase: dragon.phase },
                HostCall::<H>::Begin { dragon: after, phase },
            ]);
        }
    }
}

/// Whether the dragon is as a tick of a phase has left it.
pub open spec fn left_by(dragon: DragonView, tick: PhaseTick) -> bool {
    &&& dragon.base.position == tick.position@
    &&& dragon.base.velocity == tick.velocity@
    &&& dragon.base.yaw == tick.yaw@
    &&& dragon.base.pitch == tick.pitch@
    &&& dragon.y_rot_a == tick.y_rot_a@
}

/// A phase other than dying is ticked once, on the dragon as it is. What it leaves the
/// dragon with is taken over, health within its bounds, and the phase it hands off to
/// is entered; all else stays.
pub proof fn a_phase_tick_is_taken_over<H: DragonHost>(
    dragon: DragonView,
    phase: EnderDragonPhase,
    answers: PhaseAnswers,
)
    requires
        phase != EnderDragonPhase::Dying,
        dragon::nought().at_most(dragon.max_health),
    ensures
        ({
            let tick = answers.tick;
            let after = dragon.ran(phase, answers);
            let calls = brain::phase_calls::<H>(dragon, phase, answers);
            &&& left_by(after, tick)
            &&& after.phase == match tick.next {
                Some(next) => next,
                None => dragon.phase,
            }
            &&& tick.health is None ==> after.health == dragon.health
            &&& tick.health matches Some(health) ==> {
                &&& dragon::nought().at_most(health@) && health@.at_most(dragon.max_health)
                    ==> after.health == health@
                &&& health@.less(dragon::nought()) ==> after.health == dragon::nought()
                &&& dragon.max_health.less(health@) ==> after.health == dragon.max_health
            }
            &&& after == (DragonView {
                base: BaseView {
                    position: after.base.position,
                    velocity: after.base.velocity,
                    yaw: after.base.yaw,
                    pitch: after.base.pitch,
                    ..dragon.base
                },
                y_rot_a: after.y_rot_a,
                health: after.health,
                phase: after.phase,
                synced_phase: after.synced_phase,
                death_target: after.death_target,
                ..dragon
            })
            &&& calls.len() >= 1
            &&& calls[0] == (HostCall::<H>::DoServerTick { dragon, phase, answer: tick })
            &&& forall|i: int|
                1 <= i < calls.len() ==> (#[trigger] calls[i]) is End || calls[i] is Begin
            &&& tick.next is None || tick.next == Some(dragon.phase) ==> calls.len() == 1
        }),
{
}

/// A hand-off is chased, whichever phase it leads to: where the tick of a phase other
/// than dying hands off to another that is not dying either, the dragon ticks that
/// one too, in its new phase and as the first tick left it, and what the second
/// tick leaves it with is what counts. Where there is no hand-off, no second phase is
/// ticked.
pub proof fn a_hand_off_is_chased<H: DragonHost>(
    dragon: DragonView,
    first: PhaseAnswers,
    second: PhaseAnswers,
)
    requires
        dragon.phase != EnderDragonPhase::Dying,
    ensures
        ({
            let calls = brain::phases_calls::<H>(dragon, first, second);
            let after = dragon.phases_ticked(first, second);
            &&& calls.len() >= 1
            &&& calls[0] == (HostCall::<H>::DoServerTick {
                dragon,
                phase: dragon.phase,
                answer: first.tick,
            })
            &&& first.tick.next is None || first.tick.next == Some(dragon.phase) ==> {
                &&& calls.len() == 1
                &&& left_by(after, first.tick)
                &&& after.phase == dragon.phase
            }
            &&& first.tick.next matches Some(next) ==> (next != dragon.phase && next
                != EnderDragonPhase::Dying ==> {
                &&& calls.len() >= 4
                &&& calls[1] is End && calls[1]->End_phase == dragon.phase
                &&& calls[2] is Begin && calls[2]->Begin_phase == next
                &&& calls[3] is DoServerTick
                &&& calls[3]->DoServerTick_phase == next
                &&& calls[3]->DoServerTick_answer == second.tick
                &&& left_by(calls[3]->DoServerTick_dragon, first.tick)
                &&& calls[3]->DoServerTick_dragon.phase == next
                &&& calls[3]->DoServerTick_dragon.parts == dragon.parts
                &&& forall|i: int| 4 <= i < calls.len() ==> !((#[trigger] calls[i]) is DoServerTick)
                &&& left_by(after, second.tick)
                &&& after.phase == match second.tick.next {
                    Some(third) => third,
                    None => next,
                }
            })
            &&& first.tick.next == Some(EnderDragonPhase::Dying) ==> {
                &&& left_by(after, first.tick)
                &&& after.phase == EnderDragonPhase::Dying
                &&& after.death_target is Some
                &&& calls.len() == 3
                &&& calls[2] is HeightmapPos
            }
        }),
{
    let calls = brain::phases_calls::<H>(dragon, first, second);
    let once = brain::phase_calls::<H>(dragon, dragon.phase, first);
    a_switch_is_a_switch::<H>(
        dragon.carried(first.tick),
        match first.tick.next {
            Some(next) => next,
            None => dragon.phase,
        },
    );
    match first.tick.next {
        Some(next) => {
            if next != dragon.phase {
                let between = dragon.ran(dragon.phase, first);
                let again = brain::phase_calls::<H>(between, next, second);
                assert(between.phase == next);
                assert(calls == once + again);
                if next != EnderDragonPhase::Dying {
                    assert(once.len() == 3);
                    assert(calls[3] == again[0]);
                }
            }
        },
        None => {},
    }
}

/// A tick of the AI of a dragon that is alive, from its wings to the blocks around it:
/// its body turns with it, the last beat of the wings is kept, and the blocks have the
/// last word on its velocity.
pub proof fn a_step_from_wings_to_blocks<H: DragonHost>(
    dragon: DragonView,
    answers: StepAnswers<H>,
)
    requires
        !dragon.dead(),
        !dragon.has_no_ai(),
    ensures
        ({
            let calls = brain::step_calls(dragon, answers);
            let after = dragon.stepped(answers);
            let n = calls.len() as int;
            &&& n >= 6
            &&& calls[0] == (HostCall::<H>::ProcessFlappingMovement { dragon })
            &&& calls[1] == (HostCall::<H>::Hypotenuse {
                x: dragon.base.velocity.x,
                z: dragon.base.velocity.z,
                answer: answers.wings.ground_speed,
            })
            &&& calls[2] == (HostCall::<H>::PowerOfTwo {
                exponent: model::narrowed(dragon.base.velocity.y),
                answer: answers.wings.lift,
            })
            &&& calls[3] == (HostCall::<H>::WrapDegrees {
                degrees: dragon.base.yaw,
                answer: answers.wings.yaw,
            })
            &&& calls[4] == (HostCall::<H>::RecordFlight {
                y: dragon.base.position.y,
                yaw: answers.wings.yaw@,
            })
            &&& calls[n - 1] is ApplyEffectsFromBlocks
            &&& calls[n - 1]->ApplyEffectsFromBlocks_answer == answers.velocity
            &&& after.base.velocity == answers.velocity@
            &&& after.body_yaw == after.base.yaw
            &&& after.o_flap_time == dragon.flap_time
            &&& after.base.position == calls[n - 1]->ApplyEffectsFromBlocks_dragon.base.position
            &&& dragon.phase != EnderDragonPhase::Dying ==> calls[5] is DoServerTick
                && calls[5]->DoServerTick_phase == dragon.phase
                && calls[5]->DoServerTick_dragon.base.yaw == answers.wings.yaw@
        }),
{
    let calls = brain::step_calls(dragon, answers);
    let winged = dragon.winged(answers.wings);
    let acting = brain::acting_calls(winged, answers);
    let n = calls.len() as int;
    assert(calls.len() == 4 + acting.len());
    assert(calls[4] == acting[0]);
    assert(calls[n - 1] == acting[acting.len() - 1]);
    if dragon.phase != EnderDragonPhase::Dying {
        let ticks = brain::phases_calls::<H>(winged, answers.first, answers.second);
        let once = brain::phase_calls::<H>(winged, winged.phase, answers.first);
        assert(ticks[0] == once[0]);
        assert(acting[1] == ticks[0]);
        assert(calls[5] == acting[1]);
    }
    let thought = winged.phases_ticked(answers.first, answers.second);
    crate::laws::steering_only_moves_and_turns(thought, thought.phase, answers.steer);
}

/// The dying phase is ticked once and hands off to none: no other phase is ticked, and
/// the dragon stays in it.
pub proof fn the_dying_phase_is_not_left<H: DragonHost>(
    dragon: DragonView,
    first: PhaseAnswers,
    second: PhaseAnswers,
)
    requires
        dragon.phase == EnderDragonPhase::Dying,
    ensures
        ({
            let calls = brain::phases_calls::<H>(dragon, first, second);
            let after = dragon.phases_ticked(first, second);
            &&& after.phase == EnderDragonPhase::Dying
            &&& after == dragon.ran(EnderDragonPhase::Dying, first)
            &&& after.base == dragon.base && after.y_rot_a == dragon.y_rot_a
            &&& dragon.death_target is Some ==> calls.len() == 0
            &&& dragon.death_target is None ==> calls.len() == 1 && calls[0] is HeightmapPos
        }),
{
}

/// What a tick of the AI amounts to for a dragon that is alive. Its wings get on by what
/// the speed over ground and the rise make for, and its yaw is in range. Then its
/// phases run. Where it has a target by the phase that it is in then, it ends where the
/// move took it; where it has none, it ends where the phases left it.
pub proof fn what_a_step_amounts_to<H: DragonHost>(dragon: DragonView, answers: StepAnswers<H>)
    requires
        !dragon.dead(),
        !dragon.has_no_ai(),
    ensures
        ({
            let beaten = dragon.flapped(
                model::narrowed(answers.wings.ground_speed@),
                answers.wings.lift@,
            );
            let winged = DragonView {
                base: BaseView { yaw: answers.wings.yaw@, ..dragon.base },
                flap_time: beaten.flap_time,
                o_flap_time: dragon.flap_time,
                ..dragon
            };
            let thought = winged.phases_ticked(answers.first, answers.second);
            let after = dragon.stepped(answers);
            let moved = answers.steer.moving.moved;
            &&& after.flap_time == thought.flap_time && after.o_flap_time == thought.o_flap_time
            &&& after.phase == thought.phase && after.synced_phase == thought.synced_phase
            &&& after.health == thought.health && after.death_target == thought.death_target
            &&& after.base.pitch == thought.base.pitch
            &&& thought.goal(thought.phase, answers.steer.goal) is None ==> {
                &&& after.base.position == thought.base.position
                &&& after.base.yaw == thought.base.yaw
                &&& after.y_rot_a == thought.y_rot_a
                &&& brain::step_result(dragon, answers) is None
            }
            &&& thought.goal(thought.phase, answers.steer.goal) matches Some(target) ==> {
                let steered = thought.steered(thought.phase, target, answers.steer);
                &&& after.base.position == moved.position@
                &&& after.base.horizontal_collision == moved.horizontal_collision
                &&& after.base.vertical_collision == moved.vertical_collision
                &&& after.base.yaw == steered.base.yaw
                &&& after.y_rot_a == steered.y_rot_a
                &&& brain::step_result(dragon, answers) == moved.result
            }
        }),
{
    let winged = dragon.winged(answers.wings);
    let beaten = dragon.flapped(
        model::narrowed(answers.wings.ground_speed@),
        answers.wings.lift@,
    );
    assert(winged == (DragonView {
        base: BaseView { yaw: answers.wings.yaw@, ..dragon.base },
        flap_time: beaten.flap_time,
        o_flap_time: dragon.flap_time,
        ..dragon
    }));
    let thought = winged.phases_ticked(answers.first, answers.second);
    crate::laws::steering_only_moves_and_turns(thought, thought.phase, answers.steer);
}

/// The record has every call: after calls it holds what it held before, and then those
/// calls, each with an answer that the host may have given, and nothing else.
pub proof fn the_record_has_every_call<'a, H: DragonHost>(
    before: Watched<'a, H>,
    after: Watched<'a, H>,
    calls: Seq<HostCall<H>>,
    i: int,
)
    requires
        after.extends(before, calls),
    ensures
        after.host() == before.host(),
        after.log().len() == before.log().len() + calls.len(),
        0 <= i < before.log().len() ==> after.log()[i] == before.log()[i],
        0 <= i < calls.len() ==> after.log()[before.log().len() + i] == calls[i]
            && calls[i].holds(before.host()),
{
}

/// Running phases asks for no target to fly to.
proof fn lemma_phases_ask_for_no_target<H: DragonHost>(
    dragon: DragonView,
    first: PhaseAnswers,
    second: PhaseAnswers,
)
    ensures
        forall|i: int|
            0 <= i < brain::phases_calls::<H>(dragon, first, second).len()
                ==> !((#[trigger] brain::phases_calls::<H>(dragon, first, second)[i])
                is FlyTargetLocation),
{
    lemma_phase_asks_for_no_target::<H>(dragon, dragon.phase, first);
    let between = dragon.ran(dragon.phase, first);
    lemma_phase_asks_for_no_target::<H>(between, between.phase, second);
    let once = brain::phase_calls::<H>(dragon, dragon.phase, first);
    let again = brain::phase_calls::<H>(between, between.phase, second);
    let calls = brain::phases_calls::<H>(dragon, first, second);
    assert forall|i: int| 0 <= i < calls.len() implies !((#[trigger] calls[i])
        is FlyTargetLocation) by {
        if i < once.len() {
            assert(calls[i] == once[i]);
        } else {
            assert(calls[i] == again[i - once.len()]);
        }
    }
}

proof fn lemma_phase_asks_for_no_target<H: DragonHost>(
    dragon: DragonView,
    phase: EnderDragonPhase,
    answers: PhaseAnswers,
)
    ensures
        forall|i: int|
            0 <= i < brain::phase_calls::<H>(dragon, phase, answers).len()
                ==> !((#[trigger] brain::phase_calls::<H>(dragon, phase, answers)[i])
                is FlyTargetLocation),
{
}

/// Steering asks for the target of its phase first, and for no other.
proof fn lemma_steering_asks_for_its_target<H: DragonHost>(
    dragon: DragonView,
    phase: EnderDragonPhase,
    answers: SteerAnswers<H>,
)
    ensures
        ({
            let calls = brain::steer_calls(dragon, phase, answers);
            &&& phase != EnderDragonPhase::Dying ==> calls.len() > 0 && calls[0] == (
            HostCall::<H>::FlyTargetLocation { phase, answer: answers.goal })
            &&& forall|i: int|
                0 <= i < calls.len() && (#[trigger] calls[i]) is FlyTargetLocation
                    ==> calls[i]->FlyTargetLocation_phase == phase
        }),
{
}

/// Whatever the phases have switched to in a tick of the AI, the dragon flies by the
/// phase that it is in then: that one, unless it is dying, is asked for its target,
/// and no other is.
pub proof fn a_step_flies_by_the_phase_it_ends_in<H: DragonHost>(
    dragon: DragonView,
    answers: StepAnswers<H>,
)
    requires
        !dragon.dead(),
        !dragon.has_no_ai(),
    ensures
        ({
            let calls = brain::step_calls(dragon, answers);
            let after = dragon.stepped(answers);
            &&& after.phase != EnderDragonPhase::Dying ==> exists|i: int|
                0 <= i < calls.len() && (#[trigger] calls[i]) is FlyTargetLocation
            &&& forall|i: int|
                0 <= i < calls.len() && (#[trigger] calls[i]) is FlyTargetLocation
                    ==> calls[i]->FlyTargetLocation_phase == after.phase
        }),
{
    let calls = brain::step_calls(dragon, answers);
    let winged = dragon.winged(answers.wings);
    let thought = winged.phases_ticked(answers.first, answers.second);
    crate::laws::steering_only_moves_and_turns(thought, thought.phase, answers.steer);
    assert(dragon.stepped(answers).phase == thought.phase);
    lemma_phases_ask_for_no_target::<H>(winged, answers.first, answers.second);
    lemma_steering_asks_for_its_target(thought, thought.phase, answers.steer);
    let ticks = brain::phases_calls::<H>(winged, answers.first, answers.second);
    let flying = brain::steer_calls(thought, thought.phase, answers.steer);
    lemma_step_layout(dragon, answers, ticks, flying);
    let n = 5 + ticks.len() as int;
    if thought.phase != EnderDragonPhase::Dying {
        assert(calls[n] == flying[0]);
    }
    assert forall|i: int| 0 <= i < calls.len() && (#[trigger] calls[i]) is FlyTargetLocation implies
        calls[i]->FlyTargetLocation_phase == thought.phase by {
        if 5 <= i < n {
            assert(calls[i] == ticks[i - 5]);
        } else if n <= i < n + flying.len() {
            assert(calls[i] == flying[i - n]);
        }
    }
}

/// Where the calls of phases and of steering stand among those of a tick of the AI.
proof fn lemma_step_layout<H: DragonHost>(
    dragon: DragonView,
    answers: StepAnswers<H>,
    ticks: Seq<HostCall<H>>,
    flying: Seq<HostCall<H>>,
)
    requires
        !dragon.dead(),
        !dragon.has_no_ai(),
        ({
            let winged = dragon.winged(answers.wings);
            let thought = winged.phases_ticked(answers.first, answers.second);
            &&& ticks == brain::phases_calls::<H>(winged, answers.first, answers.second)
            &&& flying == brain::steer_calls(thought, thought.phase, answers.steer)
        }),
    ensures
        ({
            let calls = brain::step_calls(dragon, answers);
            let n = 5 + ticks.len() as int;
            &&& calls.len() == n + flying.len() + 1
            &&& forall|i: int| 0 <= i < 5 ==> !((#[trigger] calls[i]) is FlyTargetLocation)
            &&& forall|i: int| 5 <= i < n ==> #[trigger] calls[i] == ticks[i - 5]
            &&& forall|i: int| n <= i < n + flying.len() ==> #[trigger] calls[i] == flying[i - n]
            &&& !(calls[n + flying.len()] is FlyTargetLocation)
        }),
{
    let calls = brain::step_calls(dragon, answers);
    let winged = dragon.winged(answers.wings);
    let thought = winged.phases_ticked(answers.first, answers.second);
    let flown = thought.flown(thought.phase, answers.steer);
    let sounded = seq![HostCall::<H>::ProcessFlappingMovement { dragon }];
    let beaten = brain::wing_calls::<H>(dragon, answers.wings);
    let kept = seq![
        HostCall::<H>::RecordFlight { y: winged.base.position.y, yaw: winged.base.yaw },
    ];
    let affected = seq![
        HostCall::<H>::ApplyEffectsFromBlocks { dragon: flown, answer: answers.velocity },
    ];
    assert(calls == sounded + beaten + (kept + ticks + flying + affected));
}

/// The dragon starts at full health by its kind, hovering, at peace and with nothing
/// counted, passing through terrain, and with clients told. Its eight hitboxes are
/// all where it is, under the eight ids after its own, in order.
pub proof fn a_new_dragon(entity_type: EntityType, base: BaseView)
    ensures
        ({
            let d = dragon::fresh(entity_type, base);
            let sizes = seq![
                (PartKind::Head, 1int, 1int),
                (PartKind::Neck, 3, 3),
                (PartKind::Body, 5, 3),
                (PartKind::Tail, 2, 2),
                (PartKind::Tail, 2, 2),
                (PartKind::Tail, 2, 2),
                (PartKind::Wing, 4, 2),
                (PartKind::Wing, 4, 2),
            ];
            &&& d.base == (BaseView { no_physics: true, ..base })
            &&& d.entity_type == entity_type
            &&& d.health == entity_type.max_health.number() && d.max_health == d.health
            &&& d.phase == EnderDragonPhase::Hovering && d.synced_phase == 10
            &&& d.death_time == 0 && d.death_target is None
            &&& d.sitting_damage.signed() == 0 && d.sitting_damage is Finite
            &&& d.flap_time == d.sitting_damage && d.o_flap_time == d.sitting_damage
            &&& d.y_rot_a == d.sitting_damage
            &&& d.mob_flags == 0 && !d.glowing && !d.in_wall
            &&& d.fight_origin.x == 0 && d.fight_origin.y == 0 && d.fight_origin.z == 0
            &&& d.parts.len() == 8
            &&& forall|i: int|
                #![trigger d.parts[i]]
                0 <= i < 8 ==> {
                    &&& d.parts[i].id == base.id + 1 + i
                    &&& d.parts[i].position == base.position
                    &&& d.parts[i].entity_type == entity_type
                    &&& d.parts[i].kind == sizes[i].0
                    &&& d.parts[i].width == model::whole(Format::Binary32, sizes[i].1)
                    &&& d.parts[i].height == model::whole(Format::Binary32, sizes[i].2)
                }
        }),
{
    assert(0 * pow2(149) == 0);
}

/// Of a save, each value is taken on its own, and what is not there changes nothing.
/// Any number that stands for no phase is the holding pattern.
pub proof fn each_saved_value_is_taken_on_its_own(
    dragon: DragonView,
    phase: Option<i32>,
    death_time: Option<i32>,
    received: Option<Single>,
)
    ensures
        ({
            let after = dragon.loaded(phase, death_time, received);
            &&& after == (DragonView {
                phase: after.phase,
                synced_phase: after.synced_phase,
                death_target: after.death_target,
                death_time: after.death_time,
                sitting_damage: after.sitting_damage,
                ..dragon
            })
            &&& phase is None ==> after.phase == dragon.phase && after.synced_phase
                == dragon.synced_phase && after.death_target == dragon.death_target
            &&& phase matches Some(id) ==> if 0 <= id <= 10 {
                after.phase.number() == id
            } else {
                after.phase.number() == 0
            }
            &&& death_time is None ==> after.death_time == dragon.death_time
            &&& death_time matches Some(time) ==> after.death_time == time
            &&& received is None ==> after.sitting_damage == dragon.sitting_damage
            &&& received matches Some(damage) ==> after.sitting_damage == damage@
        }),
{
}

/// A save holds the number of the phase, the death timer and the damage taken on the
/// perch, each under its name.
pub proof fn a_save_holds_three_values(dragon: EnderDragonEntity)
    ensures
        save::saved(dragon).len() == 3,
        save::saved(dragon)[0].0.label() == "DragonPhase"@,
        save::saved(dragon)[0].1 == NbtTag::Int(dragon.phase_manager.current.number() as i32),
        save::saved(dragon)[1].0.label() == "DragonDeathTime"@,
        save::saved(dragon)[1].1 == NbtTag::Int(dragon.dragon_death_time),
        save::saved(dragon)[2].0.label() == "sitting_damage_received"@,
        save::saved(dragon)[2].1 == NbtTag::Float(dragon.sitting_damage_received),
{
}

} // verus!

//! What holds of the dragon as a whole.

pub mod dying;
pub mod flying;
pub mod hurting;
pub mod phases;

use crate::block::BlockPos;
use crate::brain;
use crate::brain::{PhaseAnswers, SteerAnswers, StepAnswers};
use crate::damage;
use crate::damage::{DamageSource, HitAnswers};
use crate::death;
use crate::dragon;
use crate::dragon::{
    BaseView, DragonView, EnderDragonEntity, DEATH_DURATION, EXPERIENCE_FREE_TICKS, HEAD,
    SUB_ENTITY_COUNT,
};
use crate::flight;
use crate::float::laws;
use crate::float::model;
use crate::float::model::{Datum, Format};
use crate::float::parts;
use crate::float::single::Single;
use crate::host::{DragonHost, HostCall, Hurt};
use crate::part::{EnderDragonPart, PartView};
use crate::phase;
use crate::phase::EnderDragonPhase;
use crate::save;
use crate::vector::VecView;
use vstd::prelude::*;
use vstd::arithmetic::mul::*;
use vstd::arithmetic::power2::*;

verus! {

/// The numbers zero and one are what they should be.
proof fn lemma_small_numbers()
    ensures
        dragon::nought() == (Datum::Finite { negative: false, units: 0 }),
        model::whole(Format::Binary32, 1) == (Datum::Finite { negative: false, units: pow2(149) }),
        pow2(149) > 0,
{
    lemma_pow2_pos(149);
    assert(0 * pow2(149) == 0);
    assert(1 * pow2(149) == pow2(149));
}

/// The hitboxes have ids of their own: none is the dragon's, and no two share one.
pub proof fn hitboxes_have_their_own_ids(dragon: DragonView, i: int, j: int)
    requires
        dragon.wf(),
        0 <= i < dragon.parts.len(),
        0 <= j < dragon.parts.len(),
    ensures
        dragon.base.id < dragon.parts[i].id <= dragon.base.id + SUB_ENTITY_COUNT,
        dragon.parts[i].id == dragon.parts[j].id ==> i == j,
{
}

/// Health that was set is a number within bounds, or no number at all.
pub proof fn health_stays_in_bounds(dragon: DragonView, health: Datum)
    requires
        dragon.wf(),
    ensures
        ({
            let after = dragon.with_health(health).health;
            after is Nan || dragon::nought().at_most(after) && after.at_most(dragon.max_health)
        }),
{
}

/// A killing blow on a dragon in flight sends it off to die, alive by one last
/// point, and with no target of an earlier flight. A perched dragon simply dies.
pub proof fn a_killing_blow_starts_the_last_flight(dragon: DragonView)
    requires
        dragon.wf(),
        model::whole(Format::Binary32, 1).at_most(dragon.max_health),
        dragon.dead(),
    ensures
        !dragon.phase.sits() ==> {
            let after = dragon.struck();
            &&& after.health == model::whole(Format::Binary32, 1)
            &&& !after.dead()
            &&& after.phase == EnderDragonPhase::Dying
            &&& dragon.phase != EnderDragonPhase::Dying ==> after.death_target is None
        },
        dragon.phase.sits() ==> dragon.struck() == dragon && dragon.struck().dead(),
{
    lemma_small_numbers();
}

/// A dragon in flight cannot be killed by a hit: at worst it flies off to die.
pub proof fn no_hit_kills_in_flight(dragon: DragonView, hurt: Hurt)
    requires
        dragon.wf(),
        model::whole(Format::Binary32, 1).at_most(dragon.max_health),
        !dragon.phase.sits(),
    ensures
        !dragon.hit(hurt).dead(),
        dragon.hit(hurt).phase == dragon.phase || dragon.hit(hurt).phase == EnderDragonPhase::Dying,
{
    lemma_small_numbers();
}

/// The dying phase keeps the dragon alive until it has arrived, and no longer.
pub proof fn the_last_flight_ends_on_arrival(dragon: DragonView, surface: VecView)
    requires
        dragon.wf(),
        dragon::nought().less(dragon.max_health),
    ensures
        ({
            let after = dragon.dying_ticked(surface);
            after.dead() <==> death::arrived(
                after.death_target->0,
                dragon.base.position,
                dragon.base.horizontal_collision,
                dragon.base.vertical_collision,
            )
        }),
{
    lemma_small_numbers();
}

/// The target of the last flight stays where it was first seen.
pub proof fn the_last_target_is_latched(dragon: DragonView, first: VecView, second: VecView)
    ensures
        ({
            let once = dragon.dying_ticked(first);
            let twice = once.dying_ticked(second);
            &&& once.death_target is Some
            &&& twice.death_target == once.death_target
            &&& dragon.death_target is None ==> once.death_target == Some(first)
        }),
{
}

/// The dragon after so many ticks of the death animation.
pub open spec fn after_ticks(dragon: DragonView, ticks: nat) -> DragonView
    decreases ticks,
{
    if ticks == 0 {
        dragon
    } else {
        after_ticks(dragon, (ticks - 1) as nat).death_ticked()
    }
}

/// Where a point is after so many ticks of the death animation.
pub open spec fn drifted(point: VecView, ticks: nat) -> VecView
    decreases ticks,
{
    if ticks == 0 {
        point
    } else {
        drifted(point, (ticks - 1) as nat).plus(dragon::drift())
    }
}

/// The death animation counts every tick, lifts the dragon and each of its
/// hitboxes alike, removes the dragon on its last tick and not before, and leaves
/// everything else alone.
pub proof fn the_death_animation_runs_its_course(dragon: DragonView, ticks: nat)
    requires
        dragon.death_time == 0,
        !dragon.base.removed,
    ensures
        ({
            let after = after_ticks(dragon, ticks);
            &&& after.death_time == ticks
            &&& after.base.removed <==> ticks >= DEATH_DURATION
            &&& after.base.position == drifted(dragon.base.position, ticks)
            &&& after.parts.len() == dragon.parts.len()
            &&& forall|i: int|
                #![trigger after.parts[i]]
                0 <= i < dragon.parts.len() ==> after.parts[i] == (PartView {
                    position: drifted(dragon.parts[i].position, ticks),
                    ..dragon.parts[i]
                })
            &&& after.health == dragon.health
            &&& after.phase == dragon.phase
            &&& after.base.velocity == dragon.base.velocity
            &&& dragon.wf() ==> after.wf()
        }),
    decreases ticks,
{
    if ticks > 0 {
        the_death_animation_runs_its_course(dragon, (ticks - 1) as nat);
    }
}

/// Experience drops only where the rules allow it, and only in the last part of
/// the animation; from then on it never stays away for long, and the rest of it
/// comes as the dragon goes.
pub proof fn experience_drops_late(time: int, mob_drops: bool)
    ensures
        ({
            let tick = dragon::death_tick(time, mob_drops);
            &&& !mob_drops ==> !tick.trickle && !tick.last
            &&& time <= EXPERIENCE_FREE_TICKS ==> !tick.trickle && !tick.last
            &&& tick.last ==> tick.removed
            &&& mob_drops && tick.removed ==> tick.last
        }),
        mob_drops && time > EXPERIENCE_FREE_TICKS ==> {
            ||| dragon::death_tick(time, mob_drops).trickle
            ||| dragon::death_tick(time + 1, mob_drops).trickle
            ||| dragon::death_tick(time + 2, mob_drops).trickle
            ||| dragon::death_tick(time + 3, mob_drops).trickle
            ||| dragon::death_tick(time + 4, mob_drops).trickle
        },
{
}

/// A dragon that flies off to die cannot be hurt any more, and nothing is asked.
/// One that may not be hurt by a source still counts the hit as landed, and the
/// hurt is not asked for.
pub proof fn hits_that_do_nothing<H: DragonHost>(
    dragon: DragonView,
    to_head: bool,
    source: DamageSource,
    damage: Datum,
    answers: HitAnswers<H>,
)
    ensures
        dragon.phase == EnderDragonPhase::Dying ==> damage::hit_outcome(
            dragon,
            to_head,
            source,
            answers,
        ) == (false, dragon) && damage::landing_calls(dragon, to_head, source, damage, answers)
            == Seq::<HostCall<H>>::empty(),
        dragon.phase != EnderDragonPhase::Dying && !damage::damageable_by(source, answers.source)
            && !damage::negligible(damage::dealt(answers.through@, to_head)) ==> {
            let calls = damage::landing_calls(dragon, to_head, source, damage, answers);
            &&& damage::hit_outcome(dragon, to_head, source, answers) == (true, dragon)
            &&& forall|i: int|
                0 <= i < calls.len() ==> !((#[trigger] calls[i]) is DefaultHurtServer)
        },
{
}

/// A hit that counts hurts the dragon through the world exactly once.
pub proof fn a_hit_hurts_once<H: DragonHost>(
    dragon: DragonView,
    to_head: bool,
    source: DamageSource,
    damage: Datum,
    answers: HitAnswers<H>,
)
    requires
        dragon.phase != EnderDragonPhase::Dying,
        !damage::negligible(damage::dealt(answers.through@, to_head)),
        damage::damageable_by(source, answers.source),
    ensures
        ({
            let calls = damage::landing_calls(dragon, to_head, source, damage, answers);
            let at = 1 + damage::source_calls(source, answers.source).len() as int;
            &&& 0 <= at < calls.len()
            &&& calls[at] == (HostCall::<H>::DefaultHurtServer {
                dragon,
                source,
                damage: damage::dealt(answers.through@, to_head),
                answer: answers.hurt,
            })
            &&& forall|i: int|
                0 <= i < calls.len() && i != at ==> !((#[trigger] calls[i]) is DefaultHurtServer)
        }),
{
}

/// A tick of phases runs one of them, or two where the first has switched, and
/// never a third.
pub proof fn at_most_two_phases_run<H: DragonHost>(
    dragon: DragonView,
    first: PhaseAnswers,
    second: PhaseAnswers,
)
    ensures
        ({
            let calls = brain::phases_calls::<H>(dragon, first, second);
            let between = dragon.ran(dragon.phase, first);
            let rest = brain::phase_calls::<H>(dragon, dragon.phase, first).len() as int;
            forall|i: int|
                0 <= i < calls.len() && (#[trigger] calls[i]) is DoServerTick ==> {
                    ||| i == 0 && calls[i] == (HostCall::<H>::DoServerTick {
                        dragon,
                        phase: dragon.phase,
                        answer: first.tick,
                    })
                    ||| i == rest && between.phase != dragon.phase && calls[i] == (
                    HostCall::<H>::DoServerTick {
                        dragon: between,
                        phase: between.phase,
                        answer: second.tick,
                    })
                }
        }),
{
}

/// Without AI, and once it is dead, the dragon runs no phase and does not move. All
/// that it does without AI is to hold its wings mid-beat and bring its yaw in range.
pub proof fn without_ai_no_phase_runs<H: DragonHost>(dragon: DragonView, answers: StepAnswers<H>)
    requires
        dragon.dead() || dragon.has_no_ai(),
    ensures
        forall|i: int|
            0 <= i < brain::step_calls(dragon, answers).len() ==> {
                let call = #[trigger] brain::step_calls(dragon, answers)[i];
                !(call is DoServerTick) && !(call is HeightmapPos) && !(call is MoveEntity)
            },
        brain::step_result(dragon, answers) is None,
        dragon.stepped(answers).base.position == dragon.base.position,
        dragon.stepped(answers).base.velocity == dragon.base.velocity,
        dragon.stepped(answers).phase == dragon.phase,
        dragon.stepped(answers).health == dragon.health,
        dragon.stepped(answers).base.pitch == dragon.base.pitch,
        dragon.stepped(answers).y_rot_a == dragon.y_rot_a,
        !dragon.dead() ==> {
            let after = dragon.stepped(answers);
            &&& after.flap_time == model::ratio(Format::Binary32, 1, 2)
            &&& after.o_flap_time == dragon.flap_time
            &&& after.base.yaw == answers.wings.yaw@
        },
{
}

/// A perched dragon stays while the damage it has taken is within a quarter of
/// its full health, and past that it takes off with a clean slate.
pub proof fn a_perched_dragon_is_dislodged(dragon: DragonView, taken: Datum)
    requires
        dragon.wf(),
        dragon.phase.sits(),
    ensures
        ({
            let after = dragon.seated(taken);
            let received = model::plus(Format::Binary32, dragon.sitting_damage, taken);
            &&& received.at_most(dragon.sitting_allowance()) ==> after.phase == dragon.phase
                && after.sitting_damage == received
            &&& !received.at_most(dragon.sitting_allowance()) ==> after.phase
                == EnderDragonPhase::Takeoff && after.sitting_damage == dragon::nought()
            &&& after.wf()
        }),
{
}

/// Steering moves and turns the dragon, and does nothing else to it.
pub proof fn steering_only_moves_and_turns<H: DragonHost>(
    dragon: DragonView,
    phase: EnderDragonPhase,
    answers: SteerAnswers<H>,
)
    ensures
        ({
            let after = dragon.flown(phase, answers);
            after == (DragonView {
                base: BaseView {
                    position: after.base.position,
                    velocity: after.base.velocity,
                    yaw: after.base.yaw,
                    horizontal_collision: after.base.horizontal_collision,
                    vertical_collision: after.base.vertical_collision,
                    ..dragon.base
                },
                y_rot_a: after.y_rot_a,
                ..dragon
            })
        }),
{
}

/// Clipping terrain shortens the way that the dragon asks to be moved by, to four
/// fifths of it, and nothing else: where a clipping and a free dragon that are
/// otherwise alike get the same answers, and the move leaves their velocity alone,
/// they end with the same velocity, yaw and turn rate.
pub proof fn clipping_terrain_only_shortens_the_way<H: DragonHost>(
    free: DragonView,
    phase: EnderDragonPhase,
    target: VecView,
    answers: SteerAnswers<H>,
    clipped: SteerAnswers<H>,
)
    requires
        !free.in_wall,
        clipped.speed == answers.speed,
        clipped.facing == answers.facing,
        clipped.course == answers.course,
        clipped.moving.pushed == answers.moving.pushed,
        answers.moving.moved.velocity == answers.moving.pushed,
        clipped.moving.moved.velocity == clipped.moving.pushed,
    ensures
        ({
            let clipping = DragonView { in_wall: true, ..free };
            let way = flight::approach_to(target, free.base.position);
            let a = free.faced(phase, target, answers).corrected(way, answers.course);
            let b = clipping.faced(phase, target, clipped).corrected(way, clipped.course);
            let asked = brain::move_calls(
                a,
                way,
                free.headed(phase, target, answers),
                answers.moving,
            )[1];
            let asked_clipping = brain::move_calls(
                b,
                way,
                clipping.headed(phase, target, clipped),
                clipped.moving,
            )[1];
            let after = free.steered(phase, target, answers);
            let after_clipping = clipping.steered(phase, target, clipped);
            &&& asked is MoveEntity && asked_clipping is MoveEntity
            &&& asked_clipping->MoveEntity_movement == asked->MoveEntity_movement.scaled(
                model::ratio(Format::Binary64, 4, 5),
            )
            &&& after_clipping.base.velocity == after.base.velocity
            &&& after_clipping.base.yaw == after.base.yaw
            &&& after_clipping.y_rot_a == after.y_rot_a
        }),
{
    reveal(flight::velocity_in_wall);
}

/// A tick of the AI leaves the hitboxes, the death animation, the damage counted
/// on the perch and the arena alone; a dragon that is dead already it leaves alone
/// altogether.
pub proof fn a_step_keeps_out_of_other_business<H: DragonHost>(
    dragon: DragonView,
    answers: StepAnswers<H>,
)
    ensures
        ({
            let after = dragon.stepped(answers);
            &&& dragon.dead() ==> after == dragon && brain::step_result(dragon, answers) is None
            &&& after.base.id == dragon.base.id
            &&& after.base.removed == dragon.base.removed
            &&& after.base.no_physics == dragon.base.no_physics
            &&& after.parts == dragon.parts
            &&& after.max_health == dragon.max_health
            &&& after.death_time == dragon.death_time
            &&& after.sitting_damage == dragon.sitting_damage
            &&& after.fight_origin == dragon.fight_origin
            &&& after.mob_flags == dragon.mob_flags
        }),
{
    if !dragon.dead() && !dragon.has_no_ai() {
        let thought = dragon.winged(answers.wings).phases_ticked(answers.first, answers.second);
        steering_only_moves_and_turns(thought, thought.phase, answers.steer);
    }
}

/// Clients always know the phase: every switch tells them.
pub proof fn clients_know_the_phase(dragon: DragonView, phase: EnderDragonPhase)
    requires
        dragon.in_sync(),
    ensures
        dragon.with_phase(phase).synced_phase == phase.number(),
        dragon.with_phase(phase).phase == phase,
{
}

/// A dragon that loads what another one saved is in the other's phase, as far
/// into its death and as battered from its perch, and is otherwise itself.
pub proof fn a_saved_dragon_loads_back(saved: EnderDragonEntity, loader: DragonView)
    requires
        loader.wf(),
    ensures
        save::saved(saved)[0].1 matches save::NbtTag::Int(phase)
            && save::saved(saved)[1].1 matches save::NbtTag::Int(time)
            && save::saved(saved)[2].1 matches save::NbtTag::Float(received) && {
            let after = loader.loaded(Some(phase), Some(time), Some(received));
            &&& after.phase == saved@.phase
            &&& after.death_time == saved@.death_time
            &&& after.sitting_damage == saved@.sitting_damage
            &&& after.wf()
            &&& after == (DragonView {
                phase: after.phase,
                synced_phase: after.synced_phase,
                death_target: after.death_target,
                death_time: after.death_time,
                sitting_damage: after.sitting_damage,
                ..loader
            })
        },
{
    phase::phases_go_by_their_numbers(saved@.phase, 0);
}

/// A number of 32 bits that is not too small has its units in fours, and has
/// neighbours a quarter off or closer on either side.
proof fn lemma_quarter(d: Single) -> (r: (nat, nat, nat))
    requires
        d@ is Finite,
        d@->units >= pow2(28),
    ensures
        d@->units == 4 * r.0,
        laws::holds(24, r.0),
        laws::holds(24, r.1),
        3 * r.0 <= r.1 < d@->units,
        laws::holds(24, r.2),
        d@->units < r.2 <= 5 * r.0,
{
    let u = d@->units;
    lemma2_to64();
    lemma2_to64_rest();
    assert(0x80_0000 * 256 * 2 == 0x1_0000_0000);
    laws::finite_numbers_fit(Format::Binary32, d.bits as nat);
    let (m, k) = choose|m: nat, k: nat| m < pow2(24) && u == #[trigger] (m * pow2(k));
    if k < 4 {
        parts::lemma_pow2_ordered(k, 3);
        assert(m * pow2(k) < pow2(24) * 8) by (nonlinear_arith)
            requires
                m < pow2(24),
                pow2(k) <= 8,
        ;
        assert(false);
    }
    let h = pow2((k - 2) as nat);
    lemma_pow2_adds(2, (k - 2) as nat);
    lemma_pow2_pos((k - 2) as nat);
    let y = m * h;
    assert(u == 4 * y) by (nonlinear_arith)
        requires
            u == m * pow2(k),
            pow2(k) == 4 * h,
            y == m * h,
    ;
    if m >= 4 {
        let low = (m - 1) as nat * pow2(k);
        let high = (m + 1) * pow2(k);
        assert(3 * y <= low < u < high <= 5 * y) by (nonlinear_arith)
            requires
                y == m * h,
                u == 4 * y,
                low == (m - 1) * (4 * h),
                high == (m + 1) * (4 * h),
                m >= 4,
                h > 0,
        ;
        if m + 1 == pow2(24) {
            lemma_pow2_adds(24, k);
            assert(high == 1 * pow2(24 + k));
        }
        (y, low, high)
    } else {
        assert(m > 0) by (nonlinear_arith)
            requires
                m * pow2(k) >= pow2(28),
                pow2(28) > 0,
        ;
        let low = (4 * m - 1) as nat * h;
        let high = (4 * m + 1) * h;
        assert(3 * y <= low < u < high <= 5 * y) by (nonlinear_arith)
            requires
                y == m * h,
                u == 4 * y,
                low == (4 * m - 1) * h,
                high == (4 * m + 1) * h,
                m >= 1,
                h > 0,
        ;
        (y, low, high)
    }
}

/// A quarter of a number that is not too small is exact.
proof fn lemma_quarter_is_exact(d: Datum, y: nat)
    requires
        d is Finite,
        d->units == 4 * y,
        laws::holds(24, y),
        d->units < pow2(277),
    ensures
        model::over(Format::Binary32, d, model::whole(Format::Binary32, 4)) == (Datum::Finite {
            negative: d->Finite_negative,
            units: y,
        }),
{
    lemma_small_numbers();
    let u = d->units;
    let four: nat = 4 * pow2(149);
    assert(u * pow2(149) == y * four) by (nonlinear_arith)
        requires
            u == 4 * y,
            four == 4 * pow2(149),
    ;
    laws::rounding_keeps_numbers(24, y, four);
}

/// Aiming for the head pays off from two points on: a hit to another hitbox deals
/// a quarter and a point, which is less; from four thirds on it is at least no
/// more. A hit that counts but is of one point or less deals a quarter on top,
/// which is more.
pub proof fn the_head_is_worth_aiming_for(damage: Single)
    requires
        damage@ !is Nan,
        !damage::negligible(damage@),
    ensures
        damage::dealt(damage@, true) == damage@,
        damage@ is Infinite || damage@ is Finite && 3 * damage@->units >= 4 * pow2(149)
            ==> damage::dealt(damage@, false).at_most(damage::dealt(damage@, true)),
        damage@ is Finite && model::whole(Format::Binary32, 2).at_most(damage@) ==> {
            &&& damage::dealt(damage@, false) == model::plus(
                Format::Binary32,
                model::over(Format::Binary32, damage@, model::whole(Format::Binary32, 4)),
                model::whole(Format::Binary32, 1),
            )
            &&& damage::dealt(damage@, false).less(damage::dealt(damage@, true))
        },
        damage@.at_most(model::whole(Format::Binary32, 1)) ==> {
            &&& damage::dealt(damage@, false) == model::times(
                Format::Binary32,
                model::ratio(Format::Binary32, 5, 4),
                damage@,
            )
            &&& damage::dealt(damage@, true).less(damage::dealt(damage@, false))
        },
{
    let d = damage@;
    lemma_small_numbers();
    lemma2_to64();
    lemma2_to64_rest();
    lemma_hundredth();
    if d is Finite {
        let u = d->units;
        let (y, low, high) = lemma_quarter(damage);
        assert(0x80_0000 * 256 * 2 == 0x1_0000_0000);
        laws::finite_numbers_fit(Format::Binary32, damage.bits as nat);
        lemma_quarter_is_exact(d, y);
        let one = pow2(149);
        if 3 * u >= 4 * one {
            assert(d.lesser(model::whole(Format::Binary32, 1)) == model::whole(
                Format::Binary32,
                1,
            ));
            laws::rounding_passes_no_number(24, y + one, 1, u);
        }
        if model::whole(Format::Binary32, 2).at_most(d) {
            assert(d.lesser(model::whole(Format::Binary32, 1)) == model::whole(Format::Binary32, 1));
            laws::rounding_passes_no_number(24, y + one, 1, low);
        }
        if d.at_most(model::whole(Format::Binary32, 1)) {
            let top = d.lesser(model::whole(Format::Binary32, 1));
            assert(top == d);
            laws::rounding_passes_no_number(24, y + u, 1, high);
            // the sum is far from overflow
            parts::lemma_pow2_ordered(149, 152);
            lemma_pow2_adds(3, 149);
            lemma_pow2_strictly_increases(152, 277);
            assert(laws::holds(24, pow2(152))) by {
                assert(pow2(152) == 1nat * pow2(152));
            }
            laws::rounding_passes_no_number(24, y + u, 1, pow2(152));
            // five quarters are exact, and so is their product with the damage, up to
            // the same rounding
            let five: nat = 5 * pow2(147);
            lemma_pow2_adds(2, 147);
            assert(laws::holds(24, five)) by {
                assert(five == 5nat * pow2(147));
            }
            assert(5 * one == five * 4);
            laws::rounding_keeps_numbers(24, five, 4);
            assert(five < pow2(277)) by {
                lemma_pow2_strictly_increases(152, 277);
            }
            assert(model::ratio(Format::Binary32, 5, 4) == (Datum::Finite {
                negative: false,
                units: five,
            }));
            assert(five * u == (5 * y) * one) by (nonlinear_arith)
                requires
                    five == 5 * pow2(147),
                    one == 4 * pow2(147),
                    u == 4 * y,
            ;
            parts::lemma_round_cancels(24, 5 * y, 1, one);
        }
    }
}

/// A hundredth, in 32 bits, is not too small.
proof fn lemma_hundredth()
    ensures
        model::ratio(Format::Binary32, 1, 100) matches Datum::Finite { negative, units }
            && !negative && units >= pow2(142),
        pow2(142) >= pow2(28),
{
    lemma2_to64();
    lemma_pow2_adds(7, 142);
    parts::lemma_pow2_ordered(28, 142);
    assert(laws::holds(24, pow2(142))) by {
        assert(pow2(142) == 1nat * pow2(142));
    }
    assert(laws::holds(24, pow2(149))) by {
        assert(pow2(149) == 1nat * pow2(149));
    }
    laws::rounding_passes_no_number(24, 1 * pow2(149), 100, pow2(142));
    laws::rounding_passes_no_number(24, 1 * pow2(149), 100, pow2(149));
    lemma_pow2_strictly_increases(149, 277);
}

/// A sum keeps the order of its parts.
proof fn lemma_plus_keeps_order(a: Datum, b: Datum, c: Datum, d: Datum)
    requires
        a.at_most(b),
        c.at_most(d),
        model::plus(Format::Binary32, a, c) !is Nan,
        model::plus(Format::Binary32, b, d) !is Nan,
    ensures
        model::plus(Format::Binary32, a, c).at_most(model::plus(Format::Binary32, b, d)),
{
    if a is Finite && b is Finite && c is Finite && d is Finite {
        let low = a.signed() + c.signed();
        let high = b.signed() + d.signed();
        if 0 < low {
            laws::rounding_keeps_order(24, low as nat, high as nat, 1);
        } else if high < 0 {
            laws::rounding_keeps_order(24, (-high) as nat, (-low) as nat, 1);
        }
    }
}

/// A quarter keeps the order.
proof fn lemma_quarter_keeps_order(a: Datum, b: Datum)
    requires
        a.at_most(b),
    ensures
        model::over(Format::Binary32, a, model::whole(Format::Binary32, 4)).at_most(
            model::over(Format::Binary32, b, model::whole(Format::Binary32, 4)),
        ),
{
    lemma_small_numbers();
    let one = pow2(149);
    let four: nat = 4 * one;
    assert(model::whole(Format::Binary32, 4) == (Datum::Finite { negative: false, units: four }));
    if a is Finite && b is Finite {
        let x = a->units;
        let y = b->units;
        assert(x <= y ==> x * one <= y * one) by (nonlinear_arith);
        assert(y <= x ==> y * one <= x * one) by (nonlinear_arith);
        assert(laws::holds(24, 0)) by {
            lemma_pow2_pos(24);
            assert(0 == 0nat * pow2(0));
        }
        assert(x == 0 ==> x * one == 0) by (nonlinear_arith);
        assert(y == 0 ==> y * one == 0) by (nonlinear_arith);
        laws::rounding_passes_no_number(24, x * one, four, 0);
        laws::rounding_passes_no_number(24, y * one, four, 0);
        if x <= y {
            laws::rounding_keeps_order(24, x * one, y * one, four);
        }
        if y <= x {
            laws::rounding_keeps_order(24, y * one, x * one, four);
        }
        let f = model::whole(Format::Binary32, 4);
        let r = model::round_units(24, x * one, four);
        let t = model::round_units(24, y * one, four);
        assert(model::over(Format::Binary32, a, f) == model::settle(
            Format::Binary32,
            a->Finite_negative,
            r,
        ));
        assert(model::over(Format::Binary32, b, f) == model::settle(
            Format::Binary32,
            b->Finite_negative,
            t,
        ));
        assert(x == 0 ==> r == 0);
        assert(y == 0 ==> t == 0);
        lemma_pow2_pos(277);
    }
}

/// More damage never deals less, on any hitbox.
pub proof fn more_damage_deals_no_less(less: Datum, more: Datum, to_head: bool)
    requires
        less.at_most(more),
    ensures
        damage::dealt(less, to_head).at_most(damage::dealt(more, to_head)),
{
    if !to_head {
        lemma_small_numbers();
        lemma_quarter_keeps_order(less, more);
        let one = model::whole(Format::Binary32, 1);
        let four = model::whole(Format::Binary32, 4);
        lemma_plus_keeps_order(
            model::over(Format::Binary32, less, four),
            model::over(Format::Binary32, more, four),
            less.lesser(one),
            more.lesser(one),
        );
    }
}

/// The head alone is hit in full; all seven other hitboxes are hit alike.
pub proof fn only_the_head_is_hit_in_full(dragon: EnderDragonEntity, i: int)
    requires
        dragon.wf(),
        0 <= i < SUB_ENTITY_COUNT,
    ensures
        dragon@.is_head(dragon.sub_entities[i]) <==> i == HEAD,
        forall|part: EnderDragonPart| #[trigger]
            dragon@.is_head(part) <==> part.id == dragon.base.id + 1,
{
    assert(dragon@.parts[i] == dragon.sub_entities[i]@);
    assert(dragon@.parts[HEAD as int] == dragon.sub_entities[HEAD as int]@);
}

/// The middle of a block's floor is exact: half a block in, at the block's height.
pub proof fn block_centers_are_exact(pos: BlockPos)
    ensures
        pos.bottom_center() == (VecView {
            x: halves(2 * pos.x + 1),
            y: halves(2 * pos.y),
            z: halves(2 * pos.z + 1),
        }),
{
    lemma_half_above(pos.x);
    lemma_half_above(pos.z);
    lemma_pow2_unfold(1074);
    let y = pos.y as int;
    if y < 0 {
        assert((-y) as nat * pow2(1074) == (-(2 * y)) as nat * pow2(1073)) by (nonlinear_arith)
            requires
                pow2(1074) == 2 * pow2(1073),
                y < 0,
        ;
    } else {
        assert(y as nat * pow2(1074) == (2 * y) as nat * pow2(1073)) by (nonlinear_arith)
            requires
                pow2(1074) == 2 * pow2(1073),
                y >= 0,
        ;
    }
}

/// So many halves, in 64 bits.
pub open spec fn halves(n: int) -> Datum {
    if n < 0 {
        Datum::Finite { negative: true, units: (-n) as nat * pow2(1073) }
    } else {
        Datum::Finite { negative: false, units: n as nat * pow2(1073) }
    }
}

proof fn lemma_half_above(n: i32)
    ensures
        model::plus(
            Format::Binary64,
            model::whole(Format::Binary64, n as int),
            model::ratio(Format::Binary64, 1, 2),
        ) == halves(2 * n + 1),
{
    let h = pow2(1073);
    lemma_pow2_unfold(1074);
    lemma_pow2_pos(1073);
    lemma2_to64();
    lemma2_to64_rest();
    // one half is exact
    assert(laws::holds(53, h)) by {
        assert(h == 1nat * pow2(1073));
    }
    assert(1 * pow2(1074) == h * 2);
    laws::rounding_keeps_numbers(53, h, 2);
    parts::lemma_pow2_ordered(1074, 53 + 2045);
    assert(model::ratio(Format::Binary64, 1, 2) == (Datum::Finite { negative: false, units: h }));
    // so is the sum
    let m: nat = if n < 0 { (-(2 * n + 1)) as nat } else { (2 * n + 1) as nat };
    let u = m * h;
    assert(laws::holds(53, u)) by {
        assert(m < pow2(53));
        assert(u == m * pow2(1073));
    }
    laws::rounding_keeps_numbers(53, u, 1);
    assert(u < pow2(53 + 2045)) by {
        lemma_pow2_adds(53, 2045);
        parts::lemma_pow2_ordered(1073, 2045);
        assert(m * h < pow2(53) * pow2(2045)) by (nonlinear_arith)
            requires
                m < pow2(53),
                0 < h <= pow2(2045),
        ;
    }
    lemma_mul_strictly_positive(m as int, h as int);
    if n < 0 {
        assert(-((-n) as nat * pow2(1074)) + h == -(m * h)) by (nonlinear_arith)
            requires
                pow2(1074) == 2 * h,
                m == -(2 * n + 1),
        ;
    } else {
        assert(n as nat * pow2(1074) + h == m * h) by (nonlinear_arith)
            requires
                pow2(1074) == 2 * h,
                m == 2 * n + 1,
        ;
    }
}

} // verus!

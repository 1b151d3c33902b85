//! What holds of hits and of the damage they do.

use crate::damage;
use crate::damage::{DamageSource, HitAnswers};
use crate::dragon::DragonView;
use crate::float::laws;
use crate::float::model;
use crate::float::model::{Datum, Format};
use crate::float::order;
use crate::float::parts;
use crate::float::single::Single;
use crate::host::{DragonHost, HostCall, Hurt};
use crate::phase::EnderDragonPhase;
use vstd::prelude::*;
use vstd::arithmetic::power2::*;

verus! {

/// The damage that a hit deals, in its two ranges: on the head, all of it; elsewhere
/// a quarter, with the damage itself on top up to one point, and one point from there
/// on.
pub proof fn the_damage_that_a_hit_deals(damage: Datum)
    ensures
        damage::dealt(damage, true) == damage,
        damage.at_most(model::whole(Format::Binary32, 1)) ==> {
            let quarter = model::over(
                Format::Binary32,
                damage,
                model::whole(Format::Binary32, 4),
            );
            damage::dealt(damage, false) == model::plus(Format::Binary32, quarter, damage)
        },
        model::whole(Format::Binary32, 1).less(damage) ==> damage::dealt(damage, false)
            == model::plus(
            Format::Binary32,
            model::over(Format::Binary32, damage, model::whole(Format::Binary32, 4)),
            model::whole(Format::Binary32, 1),
        ),
{
    lemma_pow2_pos(149);
    assert(1 * pow2(149) == pow2(149));
}

/// Whether the dragon would be asked to take a hit to the head or elsewhere at all:
/// it is not dying, and the damage that gets through is not below a hundredth.
pub open spec fn counts(dragon: DragonView, to_head: bool, through: Datum) -> bool {
    dragon.phase != EnderDragonPhase::Dying && !damage::dealt(through, to_head).less(
        model::ratio(Format::Binary32, 1, 100),
    )
}

/// A hit that does not count is not handled, and changes nothing. A dying dragon is
/// not even asked about it; otherwise its phase is, and nobody else.
pub proof fn hits_that_do_not_count<H: DragonHost>(
    dragon: DragonView,
    to_head: bool,
    source: DamageSource,
    damage: Datum,
    answers: HitAnswers<H>,
)
    requires
        !counts(dragon, to_head, answers.through@),
    ensures
        damage::hit_outcome(dragon, to_head, source, answers) == (false, dragon),
        ({
            let calls = damage::landing_calls(dragon, to_head, source, damage, answers);
            &&& dragon.phase == EnderDragonPhase::Dying ==> calls.len() == 0
            &&& dragon.phase != EnderDragonPhase::Dying ==> calls == seq![
                HostCall::<H>::OnHurt {
                    phase: dragon.phase,
                    source,
                    damage,
                    answer: answers.through,
                },
            ]
        }),
{
}

/// A source of a type that always hurts dragons hurts this one, whoever is behind it
/// and whatever the world knows of them: nobody is looked up, and the hurt is asked
/// for right after the phase has had its say, with the damage that the hitbox takes.
pub proof fn some_damage_always_hurts<H: DragonHost>(
    dragon: DragonView,
    to_head: bool,
    source: DamageSource,
    damage: Datum,
    answers: HitAnswers<H>,
)
    requires
        counts(dragon, to_head, answers.through@),
        source.always_hurts_ender_dragons,
    ensures
        ({
            let calls = damage::landing_calls(dragon, to_head, source, damage, answers);
            &&& calls.len() >= 2
            &&& calls[0] == (HostCall::<H>::OnHurt {
                phase: dragon.phase,
                source,
                damage,
                answer: answers.through,
            })
            &&& calls[1] == (HostCall::<H>::DefaultHurtServer {
                dragon,
                source,
                damage: damage::dealt(answers.through@, to_head),
                answer: answers.hurt,
            })
            &&& damage::hit_outcome(dragon, to_head, source, answers) == (
                true,
                dragon.hit(answers.hurt),
            )
        }),
{
}

/// Any other source hurts the dragon exactly where an entity is behind it, the world
/// holds that entity, and it is a player. Otherwise the hit still counts as handled,
/// and changes nothing.
pub proof fn otherwise_only_players_hurt<H: DragonHost>(
    dragon: DragonView,
    to_head: bool,
    source: DamageSource,
    damage: Datum,
    answers: HitAnswers<H>,
)
    requires
        counts(dragon, to_head, answers.through@),
        !source.always_hurts_ender_dragons,
    ensures
        ({
            let calls = damage::landing_calls(dragon, to_head, source, damage, answers);
            let outcome = damage::hit_outcome(dragon, to_head, source, answers);
            &&& calls.len() >= 1
            &&& calls[0] == (HostCall::<H>::OnHurt {
                phase: dragon.phase,
                source,
                damage,
                answer: answers.through,
            })
            &&& outcome.0
            &&& source.causing_entity_id is None ==> calls.len() == 1 && outcome.1 == dragon
            &&& source.causing_entity_id matches Some(id) ==> {
                &&& calls.len() >= 2
                &&& calls[1] == (HostCall::<H>::GetEntityById { id, answer: answers.source.entity })
                &&& answers.source.entity is None ==> calls.len() == 2 && outcome.1 == dragon
                &&& answers.source.entity matches Some(entity) ==> {
                    &&& calls.len() >= 3
                    &&& calls[2] == (HostCall::<H>::IsPlayer {
                        entity,
                        answer: answers.source.player,
                    })
                    &&& !answers.source.player ==> calls.len() == 3 && outcome.1 == dragon
                    &&& answers.source.player ==> {
                        &&& calls.len() >= 4
                        &&& calls[3] == (HostCall::<H>::DefaultHurtServer {
                            dragon,
                            source,
                            damage: damage::dealt(answers.through@, to_head),
                            answer: answers.hurt,
                        })
                        &&& outcome.1 == dragon.hit(answers.hurt)
                    }
                }
            }
        }),
{
}

/// The health that a hurt leaves, brought into bounds.
pub open spec fn health_left(dragon: DragonView, hurt: Hurt) -> Datum {
    let none = Datum::Finite { negative: false, units: 0 };
    if hurt.health@.less(none) {
        none
    } else if dragon.max_health.less(hurt.health@) {
        dragon.max_health
    } else {
        hurt.health@
    }
}

/// What a hit does to a dragon in flight: it is left with the health and the velocity
/// that the hurt left, and where no health is left, with one last point and on its way
/// to die. Nothing else changes, and only a phase that is left hears of it.
pub proof fn what_a_hit_does_in_flight<H: DragonHost>(dragon: DragonView, hurt: Hurt)
    requires
        model::whole(Format::Binary32, 1).at_most(dragon.max_health),
        !dragon.phase.sits(),
    ensures
        ({
            let left = health_left(dragon, hurt);
            let after = dragon.hit(hurt);
            let calls = damage::hit_calls::<H>(dragon, hurt);
            let gone = left is Finite && left.signed() <= 0;
            &&& after.base.velocity == hurt.velocity@
            &&& !gone ==> {
                &&& after.health == left
                &&& after.phase == dragon.phase && after.synced_phase == dragon.synced_phase
                &&& after.death_target == dragon.death_target
                &&& calls.len() == 0
            }
            &&& gone ==> {
                &&& after.health == model::whole(Format::Binary32, 1)
                &&& after.phase == EnderDragonPhase::Dying
                &&& dragon.phase != EnderDragonPhase::Dying ==> after.synced_phase == 9
                    && after.death_target is None && calls.len() == 1 && calls[0] is End
                    && calls[0]->End_phase == dragon.phase
            }
            &&& after.sitting_damage == dragon.sitting_damage
            &&& after.base.position == dragon.base.position && after.base.yaw == dragon.base.yaw
            &&& after.parts == dragon.parts && after.death_time == dragon.death_time
            &&& after.max_health == dragon.max_health
        }),
{
    lemma_pow2_pos(149);
    assert(0 * pow2(149) == 0);
    assert(1 * pow2(149) == pow2(149));
}

/// What a hit does to a perched dragon: it is left with the health and the velocity
/// that the hurt left, dead where none is left, and the health it lost is added to
/// the count. With the count within a quarter of its full health it stays; past that
/// the count starts over and it takes off.
pub proof fn what_a_hit_does_on_the_perch<H: DragonHost>(dragon: DragonView, hurt: Hurt)
    requires
        model::whole(Format::Binary32, 0).at_most(dragon.max_health),
        dragon.phase.sits(),
    ensures
        ({
            let left = health_left(dragon, hurt);
            let after = dragon.hit(hurt);
            let calls = damage::hit_calls::<H>(dragon, hurt);
            let count = model::plus(
                Format::Binary32,
                dragon.sitting_damage,
                model::minus(Format::Binary32, dragon.health, left),
            );
            let quarter = model::times(
                Format::Binary32,
                model::ratio(Format::Binary32, 1, 4),
                dragon.max_health,
            );
            &&& after.base.velocity == hurt.velocity@
            &&& after.health == left
            &&& count.at_most(quarter) ==> {
                &&& after.sitting_damage == count
                &&& after.phase == dragon.phase
                &&& calls.len() == 0
            }
            &&& !count.at_most(quarter) ==> {
                &&& after.sitting_damage == model::whole(Format::Binary32, 0)
                &&& after.phase == EnderDragonPhase::Takeoff
                &&& after.synced_phase == 4
                &&& calls.len() == 2
                &&& calls[0] is End && calls[0]->End_phase == dragon.phase
                &&& calls[1] is Begin && calls[1]->Begin_phase == EnderDragonPhase::Takeoff
            }
            &&& after.base.position == dragon.base.position && after.base.yaw == dragon.base.yaw
            &&& after.parts == dragon.parts && after.death_time == dragon.death_time
            &&& after.max_health == dragon.max_health
        }),
{
    lemma_pow2_pos(149);
    assert(0 * pow2(149) == 0);
}

/// The allowance of a perched dragon is a quarter of its full health, to the last
/// bit: four times it are the whole.
pub proof fn the_allowance_is_a_quarter(dragon: DragonView, full: Single)
    requires
        dragon.max_health == full@,
        full@ is Finite,
        full@->units >= pow2(28),
    ensures
        dragon.sitting_allowance() is Finite,
        4 * dragon.sitting_allowance().signed() == full@.signed(),
{
    order::singles_fit(full);
    let u = full@->units;
    lemma2_to64();
    lemma2_to64_rest();
    let (m, k) = choose|m: nat, k: nat| m < pow2(24) && u == #[trigger] (m * pow2(k));
    if k < 4 {
        parts::lemma_pow2_ordered(k, 3);
        assert(m * pow2(k) < pow2(24) * 8) by (nonlinear_arith)
            requires
                m < pow2(24),
                pow2(k) <= 8,
        ;
        assert(false);
    }
    let y = m * pow2((k - 2) as nat);
    lemma_pow2_adds(2, (k - 2) as nat);
    assert(u == 4 * y) by (nonlinear_arith)
        requires
            u == m * pow2(k),
            pow2(k) == 4 * pow2((k - 2) as nat),
            y == m * pow2((k - 2) as nat),
    ;
    assert(laws::holds(24, y));
    // a quarter is exact
    let q = pow2(147);
    lemma_pow2_adds(2, 147);
    lemma_pow2_pos(147);
    assert(laws::holds(24, q)) by {
        assert(q == 1nat * pow2(147));
    }
    assert(1 * pow2(149) == q * 4);
    laws::rounding_keeps_numbers(24, q, 4);
    lemma_pow2_strictly_increases(147, 277);
    assert(model::ratio(Format::Binary32, 1, 4) == (Datum::Finite { negative: false, units: q }));
    assert(q * u == y * pow2(149)) by (nonlinear_arith)
        requires
            u == 4 * y,
            pow2(149) == 4 * q,
    ;
    laws::rounding_keeps_numbers(24, y, pow2(149));
}

/// A blow that leaves health, or that meets a perched dragon, changes nothing and tells
/// nobody. One that uses up the health of a dragon in flight leaves it with one point,
/// on its way to die; all else stays, and the phase it leaves hears of it.
pub proof fn what_a_killing_blow_does<H: DragonHost>(dragon: DragonView)
    requires
        model::whole(Format::Binary32, 1).at_most(dragon.max_health),
    ensures
        ({
            let after = dragon.struck();
            let calls = crate::dragon::struck_calls::<H>(dragon);
            &&& dragon.health is Finite && dragon.health.signed() > 0 || dragon.phase.sits() ==> {
                after == dragon && calls.len() == 0
            }
            &&& dragon.health is Finite && dragon.health.signed() <= 0 && !dragon.phase.sits()
                ==> {
                &&& after.health == model::whole(Format::Binary32, 1)
                &&& after.phase == EnderDragonPhase::Dying
                &&& after == (DragonView {
                    health: after.health,
                    phase: after.phase,
                    synced_phase: after.synced_phase,
                    death_target: after.death_target,
                    ..dragon
                })
                &&& dragon.phase == EnderDragonPhase::Dying ==> calls.len() == 0
                &&& dragon.phase != EnderDragonPhase::Dying ==> {
                    &&& after.synced_phase == 9
                    &&& after.death_target is None
                    &&& calls.len() == 1
                    &&& calls[0] is End && calls[0]->End_phase == dragon.phase
                }
            }
        }),
{
    lemma_pow2_pos(149);
    assert(0 * pow2(149) == 0);
    assert(1 * pow2(149) == pow2(149));
}

/// Damage that is counted is added to what was counted before. Up to a quarter of the
/// full health nothing else changes; past that the count starts over and the dragon
/// takes off, from whatever phase it was in.
pub proof fn what_is_counted_on_the_perch<H: DragonHost>(dragon: DragonView, taken: Datum)
    ensures
        ({
            let f = Format::Binary32;
            let after = dragon.seated(taken);
            let calls = damage::seated_calls::<H>(dragon, taken);
            let count = model::plus(f, dragon.sitting_damage, taken);
            let quarter = model::times(f, model::ratio(f, 1, 4), dragon.max_health);
            &&& count.at_most(quarter) ==> calls.len() == 0 && after == (DragonView {
                sitting_damage: count,
                ..dragon
            })
            &&& !count.at_most(quarter) ==> {
                &&& after.phase == EnderDragonPhase::Takeoff
                &&& after == (DragonView {
                    sitting_damage: model::whole(f, 0),
                    phase: after.phase,
                    synced_phase: after.synced_phase,
                    ..dragon
                })
                &&& dragon.phase != EnderDragonPhase::Takeoff ==> after.synced_phase == 4
            }
        }),
{
}

} // verus!

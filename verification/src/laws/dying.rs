//! What holds of the last flight and of the death animation.

use crate::brain;
use crate::brain::PhaseAnswers;
use crate::death;
use crate::dragon::{DragonView, EnderDragonEntity};
use crate::float::model;
use crate::float::model::{Datum, Format};
use crate::float::order;
use crate::host::{DragonHost, HeightmapType, HostCall};
use crate::phase::EnderDragonPhase;
use crate::vector::VecView;
use vstd::prelude::*;
use vstd::arithmetic::power2::*;

verus! {

/// Whether a coordinate is so many blocks above another.
pub open spec fn blocks_apart(a: Datum, b: Datum, n: int) -> bool {
    a is Finite && b is Finite && a.signed() - b.signed() == n * pow2(1074)
}

/// Zero with a negative sign, which a sum with zero makes positive.
pub open spec fn negative_zero() -> Datum {
    Datum::Finite { negative: true, units: 0 }
}

proof fn lemma_small_squares(n: int)
    requires
        -0x100_0000 <= n <= 0x100_0000,
    ensures
        0 <= n * n <= 0x1_0000_0000_0000,
{
    assert(0 <= n * n <= 0x100_0000 * 0x100_0000) by (nonlinear_arith)
        requires
            -0x100_0000 <= n <= 0x100_0000,
    ;
    assert(0x100_0000 * 0x100_0000 == 0x1_0000_0000_0000);
}

/// The squared distance of points whole blocks apart is exact: all three axes count,
/// and count alike.
pub proof fn whole_distances_are_exact(a: VecView, b: VecView, x: int, y: int, z: int)
    requires
        blocks_apart(a.x, b.x, x),
        blocks_apart(a.y, b.y, y),
        blocks_apart(a.z, b.z, z),
        -0x100_0000 <= x <= 0x100_0000,
        -0x100_0000 <= y <= 0x100_0000,
        -0x100_0000 <= z <= 0x100_0000,
    ensures
        a.distance_squared(b) == model::whole(Format::Binary64, x * x + y * y + z * z),
{
    lemma2_to64();
    lemma2_to64_rest();
    assert(pow2(53) == 0x20_0000_0000_0000);
    let f = Format::Binary64;
    lemma_small_squares(x);
    lemma_small_squares(y);
    lemma_small_squares(z);
    order::whole_differences_are_exact(f, a.x, b.x, x);
    order::whole_differences_are_exact(f, a.y, b.y, y);
    order::whole_differences_are_exact(f, a.z, b.z, z);
    order::whole_squares_are_exact(f, model::minus(f, a.x, b.x), x);
    order::whole_squares_are_exact(f, model::minus(f, a.y, b.y), y);
    order::whole_squares_are_exact(f, model::minus(f, a.z, b.z), z);
    order::whole_sums_are_exact(f, x * x, y * y);
    order::whole_sums_are_exact(f, x * x + y * y, z * z);
}

/// A tick of the last flight, whole blocks from the podium: the dragon is dead after
/// it exactly where the podium is closer than ten blocks or farther than a hundred
/// and fifty, by the straight way through all three axes, or where it has run into
/// something; otherwise it is held at a last point of health.
pub proof fn the_last_flight_is_measured_in_blocks(
    dragon: DragonView,
    surface: VecView,
    x: int,
    y: int,
    z: int,
)
    requires
        model::whole(Format::Binary32, 1).at_most(dragon.max_health),
        ({
            let target = match dragon.death_target {
                Some(latched) => latched,
                None => surface,
            };
            &&& blocks_apart(target.x, dragon.base.position.x, x)
            &&& blocks_apart(target.y, dragon.base.position.y, y)
            &&& blocks_apart(target.z, dragon.base.position.z, z)
        }),
        -0x100_0000 <= x <= 0x100_0000,
        -0x100_0000 <= y <= 0x100_0000,
        -0x100_0000 <= z <= 0x100_0000,
    ensures
        ({
            let after = dragon.dying_ticked(surface);
            let over = x * x + y * y + z * z < 10 * 10 || x * x + y * y + z * z > 150 * 150
                || dragon.base.horizontal_collision || dragon.base.vertical_collision;
            &&& after.health == model::whole(
                Format::Binary32,
                if over {
                    0
                } else {
                    1
                },
            )
            &&& after == (DragonView {
                health: after.health,
                death_target: after.death_target,
                ..dragon
            })
        }),
{
    let target = match dragon.death_target {
        Some(latched) => latched,
        None => surface,
    };
    whole_distances_are_exact(target, dragon.base.position, x, y, z);
    lemma_small_squares(x);
    lemma_small_squares(y);
    lemma_small_squares(z);
    let d = x * x + y * y + z * z;
    order::lemma_whole_order(Format::Binary64, d, 100);
    order::lemma_whole_order(Format::Binary64, 22500, d);
    lemma_pow2_pos(149);
    assert(0 * pow2(149) == 0) by (nonlinear_arith);
    assert(1 * pow2(149) == pow2(149)) by (nonlinear_arith);
}

/// Whether an offset is no longer than another on any axis.
pub open spec fn no_farther(a: VecView, b: VecView) -> bool {
    &&& a.x is Finite && a.y is Finite && a.z is Finite
    &&& b.x is Finite && b.y is Finite && b.z is Finite
    &&& a.x->units <= b.x->units
    &&& a.y->units <= b.y->units
    &&& a.z->units <= b.z->units
}

/// The squared length grows with each of the three axes.
pub proof fn lengths_keep_order(a: VecView, b: VecView)
    requires
        no_farther(a, b),
    ensures
        a.dot(a).at_most(b.dot(b)),
        model::whole(Format::Binary64, 0).at_most(a.dot(a)),
{
    let f = Format::Binary64;
    order::squares_keep_order(f, a.x, b.x);
    order::squares_keep_order(f, a.y, b.y);
    order::squares_keep_order(f, a.z, b.z);
    let ax = model::times(f, a.x, a.x);
    let ay = model::times(f, a.y, a.y);
    let az = model::times(f, a.z, a.z);
    let bx = model::times(f, b.x, b.x);
    let b_y = model::times(f, b.y, b.y);
    let bz = model::times(f, b.z, b.z);
    let nought = model::whole(f, 0);
    assert(0 * pow2(1074) == 0) by (nonlinear_arith);
    assert(model::plus(f, nought, nought) == nought);
    order::plus_keeps_order(f, ax, bx, ay, b_y);
    order::plus_keeps_order(f, nought, ax, nought, ay);
    order::plus_keeps_order(f, model::plus(f, ax, ay), model::plus(f, bx, b_y), az, bz);
    order::plus_keeps_order(f, nought, model::plus(f, ax, ay), nought, az);
}

/// Whether some axis of an offset spans so many blocks or more.
pub open spec fn spans(off: VecView, blocks: int) -> bool {
    ||| off.x->units >= blocks * pow2(1074)
    ||| off.y->units >= blocks * pow2(1074)
    ||| off.z->units >= blocks * pow2(1074)
}

/// Whether every axis of an offset is within so many blocks.
pub open spec fn within(off: VecView, blocks: int) -> bool {
    &&& off.x->units <= blocks * pow2(1074)
    &&& off.y->units <= blocks * pow2(1074)
    &&& off.z->units <= blocks * pow2(1074)
}

/// Where the dragon has run into nothing, its last flight is over within five blocks
/// of the podium on every axis, goes on from ten blocks on any one axis to eighty-six
/// on every axis, and is over from a hundred and fifty-one on any one. Past the near
/// end, if it is over at one place, it is over at any that is no closer on any axis;
/// and short of the far end, at any that is no farther.
pub proof fn arrival_goes_b_ydistance(target: VecView, near: VecView, far: VecView)
    requires
        no_farther(target.minus(near), target.minus(far)),
    ensures
        within(target.minus(near), 5) ==> death::arrived(target, near, false, false),
        spans(target.minus(near), 10) && within(target.minus(near), 86) ==> !death::arrived(
            target,
            near,
            false,
            false,
        ),
        spans(target.minus(near), 151) ==> death::arrived(target, near, false, false),
        spans(target.minus(near), 10) && death::arrived(target, near, false, false)
            ==> death::arrived(target, far, false, false),
        within(target.minus(far), 86) && death::arrived(target, far, false, false)
            ==> death::arrived(target, near, false, false),
{
    let off = target.minus(near);
    lengths_keep_order(off, target.minus(far));
    lengths_keep_order(off, off);
    lemma_boxes(target.minus(far), 86);
    lemma_boxes(off, 10);
    lemma_boxes(off, 151);
    lemma_boxes(off, 5);
    lemma_boxes(off, 86);
    order::lemma_whole_order(Format::Binary64, 22500, 22801);
    order::lemma_whole_order(Format::Binary64, 75, 100);
    order::lemma_whole_order(Format::Binary64, 22188, 22500);
    order::lemma_whole_order(Format::Binary64, 100, 100);
}

/// A box of whole blocks bounds the squared length.
proof fn lemma_boxes(off: VecView, n: int)
    requires
        off.x is Finite,
        off.y is Finite,
        off.z is Finite,
        0 < n < 0x1_0000,
    ensures
        spans(off, n) ==> model::whole(Format::Binary64, n * n).at_most(off.dot(off)),
        within(off, n) ==> off.dot(off).at_most(model::whole(Format::Binary64, 3 * n * n)),
{
    let f = Format::Binary64;
    lemma2_to64();
    lemma2_to64_rest();
    assert(pow2(53) == 0x20_0000_0000_0000);
    lemma_pow2_pos(1074);
    assert(0 * pow2(1074) == 0) by (nonlinear_arith);
    let long = model::whole(f, n);
    let none = model::whole(f, 0);
    assert(0 < n * n < 0x1_0000_0000) by (nonlinear_arith)
        requires
            0 < n < 0x1_0000,
    ;
    order::whole_squares_are_exact(f, long, n);
    order::whole_squares_are_exact(f, none, 0);
    order::whole_sums_are_exact(f, n * n, 0);
    order::whole_sums_are_exact(f, 0, n * n);
    order::whole_sums_are_exact(f, 0, 0);
    let q = n * n;
    order::whole_sums_are_exact(f, q, q);
    order::whole_sums_are_exact(f, q + q, q);
    assert(q + q + q == 3 * n * n) by (nonlinear_arith)
        requires
            q == n * n,
    ;
    let along_x = VecView { x: long, y: none, z: none };
    let along_y = VecView { x: none, y: long, z: none };
    let along_z = VecView { x: none, y: none, z: long };
    let corner = VecView { x: long, y: long, z: long };
    if off.x->units >= n * pow2(1074) {
        lengths_keep_order(along_x, off);
    }
    if off.y->units >= n * pow2(1074) {
        lengths_keep_order(along_y, off);
    }
    if off.z->units >= n * pow2(1074) {
        lengths_keep_order(along_z, off);
    }
    if within(off, n) {
        lengths_keep_order(off, corner);
    }
}

/// Arrival to the last bit: the last flight is over where the squares of all three
/// offsets, added up, are below a hundred or above a hundred and fifty squared, or
/// where the dragon has run into something, and nowhere else.
pub proof fn arrival_to_the_last_bit(
    target: VecView,
    position: VecView,
    horizontal_collision: bool,
    vertical_collision: bool,
)
    ensures
        ({
            let f = Format::Binary64;
            let east = model::minus(f, target.x, position.x);
            let up = model::minus(f, target.y, position.y);
            let south = model::minus(f, target.z, position.z);
            let square = model::plus(
                f,
                model::plus(f, model::times(f, east, east), model::times(f, up, up)),
                model::times(f, south, south),
            );
            death::arrived(target, position, horizontal_collision, vertical_collision) <==> {
                ||| horizontal_collision
                ||| vertical_collision
                ||| square.less(model::whole(f, 100))
                ||| model::whole(f, 22500).less(square)
            }
        }),
{
}

/// Running into anything ends the last flight, wherever the dragon is.
pub proof fn collisions_end_the_last_flight(dragon: DragonView, surface: VecView)
    requires
        model::whole(Format::Binary32, 0).at_most(dragon.max_health),
        dragon.base.horizontal_collision || dragon.base.vertical_collision,
    ensures
        dragon.dying_ticked(surface).health == model::whole(Format::Binary32, 0),
{
    assert(0 * pow2(149) == 0) by (nonlinear_arith);
}

/// The dying phase looks up the ground at the arena's center, leaves and all, on the
/// first tick that has no target, and then flies to the middle of that block's
/// floor: half a block in on either side. With a target it asks nothing.
pub proof fn the_last_target_is_over_the_podium<H: DragonHost>(
    dragon: DragonView,
    answers: PhaseAnswers,
)
    ensures
        ({
            let calls = brain::phase_calls::<H>(dragon, EnderDragonPhase::Dying, answers);
            let after = dragon.ran(EnderDragonPhase::Dying, answers);
            let half = model::ratio(Format::Binary64, 1, 2);
            &&& dragon.death_target is Some ==> calls.len() == 0 && after.death_target
                == dragon.death_target
            &&& dragon.death_target is None ==> {
                &&& calls == seq![
                    HostCall::<H>::HeightmapPos {
                        kind: HeightmapType::MotionBlocking,
                        pos: dragon.fight_origin,
                        answer: answers.surface,
                    },
                ]
                &&& after.death_target == Some(
                    VecView {
                        x: model::plus(
                            Format::Binary64,
                            model::whole(Format::Binary64, answers.surface.x as int),
                            half,
                        ),
                        y: model::whole(Format::Binary64, answers.surface.y as int),
                        z: model::plus(
                            Format::Binary64,
                            model::whole(Format::Binary64, answers.surface.z as int),
                            half,
                        ),
                    },
                )
            }
            &&& after.phase == dragon.phase
            &&& after.base == dragon.base
            &&& after.parts == dragon.parts
        }),
{
}

/// How a point takes a tick of the death animation: sideways it stays, but for the sign
/// of a zero, and upward it gains a tenth.
pub open spec fn lifted(before: VecView, after: VecView) -> bool {
    &&& before.x != negative_zero() ==> after.x == before.x
    &&& before.z != negative_zero() ==> after.z == before.z
    &&& after.x.signed() == before.x.signed() && after.z.signed() == before.z.signed()
    &&& after.y == model::plus(
        Format::Binary64,
        before.y,
        model::widened(model::ratio(Format::Binary32, 1, 10)),
    )
}

/// A tick of the death animation lifts the dragon and each of its hitboxes straight
/// up by a tenth of a block, and moves nothing sideways.
pub proof fn the_death_animation_lifts_straight_up(dragon: EnderDragonEntity)
    ensures
        lifted(dragon@.base.position, dragon@.death_ticked().base.position),
        dragon@.death_ticked().parts.len() == dragon.sub_entities.len(),
        forall|i: int|
            #![trigger dragon@.death_ticked().parts[i]]
            0 <= i < dragon.sub_entities.len() ==> lifted(
                dragon.sub_entities[i].position@,
                dragon@.death_ticked().parts[i].position,
            ),
{
    lemma_lifted(dragon.base.position);
    assert forall|i: int|
        #![trigger dragon@.death_ticked().parts[i]]
        0 <= i < dragon.sub_entities.len() implies lifted(
        dragon.sub_entities[i].position@,
        dragon@.death_ticked().parts[i].position,
    ) by {
        lemma_lifted(dragon.sub_entities[i].position);
        assert(dragon@.parts[i] == dragon.sub_entities[i]@);
    }
}

proof fn lemma_lifted(at: crate::vector::Vec3)
    ensures
        lifted(at@, at@.plus(crate::dragon::drift())),
{
    order::doubles_fit(at.x);
    order::doubles_fit(at.z);
    assert(0 * pow2(1074) == 0) by (nonlinear_arith);
    if at@.x != negative_zero() {
        order::adding_nothing_changes_nothing(Format::Binary64, at@.x);
    }
    if at@.z != negative_zero() {
        order::adding_nothing_changes_nothing(Format::Binary64, at@.z);
    }
}

/// The death animation counts up by one a tick and takes two hundred ticks. Up to
/// the hundred and fiftieth nothing drops; from then on something drops with every
/// fifth, and the rest with the last; and nothing ever drops where drops are off.
pub proof fn the_death_animation_b_ythe_clock(dragon: DragonView, mob_drops: bool)
    ensures
        ({
            let after = dragon.death_ticked();
            let time = dragon.death_time + 1;
            let tick = crate::dragon::death_tick(time, mob_drops);
            &&& after.death_time == time
            &&& after.base.removed == (dragon.base.removed || time == 200)
            &&& tick.removed == (time == 200)
            &&& tick.last == (mob_drops && time == 200)
            &&& tick.trickle == (mob_drops && time > 150 && time % 5 == 0)
            &&& after.health == dragon.health && after.phase == dragon.phase
            &&& after.base.velocity == dragon.base.velocity && after.base.yaw == dragon.base.yaw
        }),
{
}

} // verus!

//! What holds of flight: the climb, the turn, the thrust, the drag and the wings.

use crate::brain;
use crate::brain::SteerAnswers;
use crate::dragon;
use crate::dragon::{BaseView, DragonView};
use crate::flight;
use crate::flight::ApproachView;
use crate::float::laws;
use crate::float::model;
use crate::float::model::{Datum, Format};
use crate::float::order;
use crate::host::{DragonHost, HostCall};
use crate::part::EnderDragonPart;
use crate::phase::EnderDragonPhase;
use crate::vector::VecView;
use vstd::prelude::*;
use vstd::arithmetic::power2::*;

verus! {

/// How far it is over ground from a dragon to a target.
pub open spec fn over_ground(dragon: DragonView, target: VecView) -> Datum {
    let f = Format::Binary64;
    let east = model::minus(f, target.x, dragon.base.position.x);
    let south = model::minus(f, target.z, dragon.base.position.z);
    model::root(f, model::plus(f, model::times(f, east, east), model::times(f, south, south)))
}

/// Whether a dragon and a target are at places that the climb can be told from.
pub open spec fn can_climb(dragon: DragonView, target: VecView, speed: Datum) -> bool {
    let f = Format::Binary64;
    &&& dragon.base.velocity.y is Finite && order::fits(f, dragon.base.velocity.y)
    &&& target.x is Finite && target.y is Finite && target.z is Finite
    &&& dragon.base.position.x is Finite && dragon.base.position.y is Finite
    &&& dragon.base.position.z is Finite
    &&& model::minus(f, target.y, dragon.base.position.y) is Finite
    &&& speed is Finite && speed.signed() >= 0
}

/// A hundredth of a number of 64 bits.
pub open spec fn hundredth(d: Datum) -> Datum {
    model::times(Format::Binary64, d, model::ratio(Format::Binary64, 1, 100))
}

proof fn lemma_hundredth()
    ensures
        model::ratio(Format::Binary64, 1, 100) is Finite,
        model::ratio(Format::Binary64, 1, 100).signed() >= 0,
        hundredth(model::whole(Format::Binary64, 0)) == model::whole(Format::Binary64, 0),
{
    order::ratios_up_to_one(Format::Binary64, 1, 100);
    order::lemma_whole_is_one(Format::Binary64);
    order::lemma_round_zero(53, pow2(1074));
    let h = model::ratio(Format::Binary64, 1, 100)->units;
    assert(0 * h == 0);
}

/// What the climb is a hundredth of.
proof fn lemma_slope(dragon: DragonView, target: VecView, speed: Datum) -> (slope: Datum)
    requires
        can_climb(dragon, target, speed),
    ensures
        slope == flight::steepness(target, dragon.base.position, speed),
        slope is Finite,
        dragon.base.position.y.at_most(target.y) ==> model::whole(Format::Binary64, 0).at_most(
            slope,
        ),
        target.y.at_most(dragon.base.position.y) ==> slope.at_most(
            model::whole(Format::Binary64, 0),
        ),
        model::whole(Format::Binary64, 0).less(over_ground(dragon, target)) ==> model::widened(
            speed,
        ).negated().at_most(slope) && slope.at_most(model::widened(speed)),
{
    reveal(flight::steepness);
    let f = Format::Binary64;
    let none = model::whole(f, 0);
    let up = model::minus(f, target.y, dragon.base.position.y);
    let ground = over_ground(dragon, target);
    let most = model::widened(speed);
    order::lemma_whole_is_one(f);
    order::minus_tells_order(f, dragon.base.position.y, target.y);
    lemma_pow2_pos(925);
    let u = speed->units;
    assert(u * pow2(925) >= 0) by (nonlinear_arith);
    assert(u == 0 ==> u * pow2(925) == 0) by (nonlinear_arith);
    assert(speed->Finite_negative ==> u == 0);
    let slope = flight::steepness(target, dragon.base.position, speed);
    if none.less(ground) {
        if ground is Finite {
            order::lemma_round_zero(53, ground->units);
            assert(0 * pow2(1074) == 0);
            assert(model::over(f, none, ground) == none);
        } else {
            assert(model::over(f, none, ground).signed() == 0);
        }
        if none.at_most(up) {
            order::over_keeps_order(f, none, up, ground);
        }
        if up.at_most(none) {
            order::over_keeps_order(f, up, none, ground);
        }
    }
    slope
}

/// A target above never lowers the vertical velocity, and one below never raises it.
pub proof fn the_climb_goes_toward_the_target(dragon: DragonView, target: VecView, speed: Datum)
    requires
        can_climb(dragon, target, speed),
    ensures
        ({
            let before = dragon.base.velocity.y;
            let after = dragon.climbed(target, speed).base.velocity.y;
            &&& dragon.base.position.y.at_most(target.y) ==> before.at_most(after)
            &&& target.y.at_most(dragon.base.position.y) ==> after.at_most(before)
        }),
{
    reveal(flight::velocity_climbing);
    let f = Format::Binary64;
    let none = model::whole(f, 0);
    let v = dragon.base.velocity.y;
    let slope = lemma_slope(dragon, target, speed);
    let c = model::ratio(f, 1, 100);
    lemma_hundredth();
    order::lemma_whole_is_one(f);
    order::lemma_with_nothing(f, v);
    if none.at_most(slope) {
        order::times_keeps_order(f, none, slope, c);
        order::plus_keeps_order(f, v, v, none, hundredth(slope));
    }
    if slope.at_most(none) {
        order::times_keeps_order(f, slope, none, c);
        order::plus_keeps_order(f, v, v, hundredth(slope), none);
    }
}

/// Off to a side, the climb is a hundredth of the speed at most, up or down: of all of
/// it where the target is steeper than that, and of the slope otherwise. Straight over
/// or under the target, it is a hundredth of the height. Sideways the climb changes
/// nothing but the sign of a zero, and nothing else of the dragon at all.
pub proof fn the_climb_is_held_to_the_speed(dragon: DragonView, target: VecView, speed: Datum)
    requires
        can_climb(dragon, target, speed),
        order::fits(Format::Binary64, dragon.base.velocity.x),
        order::fits(Format::Binary64, dragon.base.velocity.z),
    ensures
        ({
            let f = Format::Binary64;
            let none = model::whole(f, 0);
            let before = dragon.base.velocity;
            let after = dragon.climbed(target, speed).base.velocity;
            let most = model::widened(speed);
            let ground = over_ground(dragon, target);
            let up = model::minus(f, target.y, dragon.base.position.y);
            let steep = model::over(f, up, ground);
            &&& none.less(ground) ==> {
                &&& model::plus(f, before.y, hundredth(most.negated())).at_most(after.y)
                &&& after.y.at_most(model::plus(f, before.y, hundredth(most)))
                &&& most.less(steep) ==> after.y == model::plus(f, before.y, hundredth(most))
                &&& steep.less(most.negated()) ==> after.y == model::plus(
                    f,
                    before.y,
                    hundredth(most.negated()),
                )
                &&& most.negated().at_most(steep) && steep.at_most(most) ==> after.y == model::plus(
                    f,
                    before.y,
                    hundredth(steep),
                )
            }
            &&& !none.less(ground) ==> after.y == model::plus(f, before.y, hundredth(up))
            &&& before.x != (Datum::Finite { negative: true, units: 0 }) ==> after.x == before.x
            &&& before.z != (Datum::Finite { negative: true, units: 0 }) ==> after.z == before.z
            &&& dragon.climbed(target, speed) == (DragonView {
                base: BaseView { velocity: after, ..dragon.base },
                ..dragon
            })
        }),
{
    reveal(flight::velocity_climbing);
    reveal(flight::steepness);
    let f = Format::Binary64;
    let v = dragon.base.velocity.y;
    let most = model::widened(speed);
    let slope = lemma_slope(dragon, target, speed);
    let c = model::ratio(f, 1, 100);
    lemma_hundredth();
    if model::whole(f, 0).less(over_ground(dragon, target)) {
        order::times_keeps_order(f, slope, most, c);
        order::times_keeps_order(f, most.negated(), slope, c);
        order::plus_keeps_order(f, v, v, hundredth(slope), hundredth(most));
        order::plus_keeps_order(f, v, v, hundredth(most.negated()), hundredth(slope));
    }
    if dragon.base.velocity.x != (Datum::Finite { negative: true, units: 0 }) {
        order::adding_nothing_changes_nothing(f, dragon.base.velocity.x);
    }
    if dragon.base.velocity.z != (Datum::Finite { negative: true, units: 0 }) {
        order::adding_nothing_changes_nothing(f, dragon.base.velocity.z);
    }
}

/// The climb to the last bit, wherever the dragon and the target are, and whatever is no
/// number among their places.
pub proof fn the_climb_to_the_last_bit(dragon: DragonView, target: VecView, speed: Datum)
    ensures
        ({
            let f = Format::Binary64;
            let before = dragon.base.velocity.y;
            let after = dragon.climbed(target, speed).base.velocity.y;
            let most = model::widened(speed);
            let ground = over_ground(dragon, target);
            let up = model::minus(f, target.y, dragon.base.position.y);
            let steep = model::over(f, up, ground);
            if model::whole(f, 0).less(ground) {
                &&& steep.less(most.negated()) ==> after == model::plus(
                    f,
                    before,
                    hundredth(most.negated()),
                )
                &&& most.less(steep) && !steep.less(most.negated()) ==> after == model::plus(
                    f,
                    before,
                    hundredth(most),
                )
                &&& !steep.less(most.negated()) && !most.less(steep) ==> after == model::plus(
                    f,
                    before,
                    hundredth(steep),
                )
            } else {
                after == model::plus(f, before, hundredth(up))
            }
        }),
{
    reveal(flight::velocity_climbing);
    reveal(flight::steepness);
}

/// Of two targets in the same column, the higher one makes the dragon climb no less.
pub proof fn a_higher_target_is_climbed_to_no_less(
    dragon: DragonView,
    low: VecView,
    high: VecView,
    speed: Datum,
)
    requires
        can_climb(dragon, low, speed),
        can_climb(dragon, high, speed),
        low.x == high.x && low.z == high.z,
        low.y.at_most(high.y),
    ensures
        dragon.climbed(low, speed).base.velocity.y.at_most(
            dragon.climbed(high, speed).base.velocity.y,
        ),
{
    reveal(flight::velocity_climbing);
    let f = Format::Binary64;
    let v = dragon.base.velocity.y;
    let p = dragon.base.position.y;
    let a = lemma_slope(dragon, low, speed);
    let b = lemma_slope(dragon, high, speed);
    let c = model::ratio(f, 1, 100);
    lemma_hundredth();
    order::plus_keeps_order(f, low.y, high.y, p.negated(), p.negated());
    assert(a.at_most(b)) by {
        reveal(flight::steepness);
        let ground = over_ground(dragon, low);
        if model::whole(f, 0).less(ground) {
            let (a_up, b_up) = (model::minus(f, low.y, p), model::minus(f, high.y, p));
            order::over_keeps_order(f, a_up, b_up, ground);
        }
    }
    order::times_keeps_order(f, a, b, c);
    order::plus_keeps_order(f, v, v, hundredth(a), hundredth(b));
}

/// A turn keeps four fifths of the last turn rate, and adds the course error times the
/// turn speed, with the error held to fifty degrees either way; a tenth of the new
/// rate is added to the yaw. Nothing else changes.
pub proof fn the_turn_is_held_to_fifty_degrees(dragon: DragonView, error: Datum, turn_speed: Datum)
    ensures
        ({
            let f = Format::Binary32;
            let after = dragon.turned(error, turn_speed);
            let kept = model::times(f, dragon.y_rot_a, model::ratio(f, 4, 5));
            let limit = model::whole(f, 50);
            &&& limit.less(error) ==> after.y_rot_a == model::plus(
                f,
                kept,
                model::times(f, limit, turn_speed),
            )
            &&& error.less(model::whole(f, -50)) ==> after.y_rot_a == model::plus(
                f,
                kept,
                model::times(f, model::whole(f, -50), turn_speed),
            )
            &&& model::whole(f, -50).at_most(error) && error.at_most(limit) ==> after.y_rot_a
                == model::plus(f, kept, model::times(f, error, turn_speed))
            &&& after.base.yaw == model::plus(
                f,
                dragon.base.yaw,
                model::times(f, after.y_rot_a, model::ratio(f, 1, 10)),
            )
            &&& after == (DragonView {
                base: BaseView { yaw: after.base.yaw, ..dragon.base },
                y_rot_a: after.y_rot_a,
                ..dragon
            })
        }),
{
    reveal(flight::turn_rate);
    reveal(flight::yaw_turned);
    lemma_pow2_pos(149);
}

/// The dragon turns the way of its course error: of two errors, the greater one makes
/// for no smaller a turn rate and no smaller a yaw.
pub proof fn a_greater_error_turns_no_less(
    dragon: DragonView,
    small: Datum,
    large: Datum,
    turn_speed: Datum,
)
    requires
        small is Finite,
        large is Finite,
        small.at_most(large),
        turn_speed is Finite,
        turn_speed.signed() >= 0,
        dragon.y_rot_a is Finite,
        dragon.base.yaw is Finite,
        dragon.turned(small, turn_speed).y_rot_a is Finite,
        dragon.turned(large, turn_speed).y_rot_a is Finite,
    ensures
        dragon.turned(small, turn_speed).y_rot_a.at_most(
            dragon.turned(large, turn_speed).y_rot_a,
        ),
        dragon.turned(small, turn_speed).base.yaw.at_most(
            dragon.turned(large, turn_speed).base.yaw,
        ),
{
    reveal(flight::turn_rate);
    reveal(flight::yaw_turned);
    lemma_pow2_pos(149);
    let f = Format::Binary32;
    let (low, high) = (model::whole(f, -50), model::whole(f, 50));
    let kept = model::times(f, dragon.y_rot_a, model::ratio(f, 4, 5));
    let a = small.held(low, high);
    let b = large.held(low, high);
    order::times_keeps_order(f, a, b, turn_speed);
    order::ratios_up_to_one(f, 4, 5);
    order::ratios_up_to_one(f, 1, 10);
    order::plus_keeps_order(
        f,
        kept,
        kept,
        model::times(f, a, turn_speed),
        model::times(f, b, turn_speed),
    );
    let r = dragon.turned(small, turn_speed).y_rot_a;
    let t = dragon.turned(large, turn_speed).y_rot_a;
    order::times_keeps_order(f, r, t, model::ratio(f, 1, 10));
    order::plus_keeps_order(
        f,
        dragon.base.yaw,
        dragon.base.yaw,
        model::times(f, r, model::ratio(f, 1, 10)),
        model::times(f, t, model::ratio(f, 1, 10)),
    );
}

/// The way to a target is told by the difference of the places, axis by axis; the
/// distance by all three of them, whatever the climb is held to; and the dragon is off
/// course where the target is more than a hundred-thousandth of a block to a side.
pub proof fn the_way_to_a_target(target: VecView, position: VecView)
    ensures
        ({
            let f = Format::Binary64;
            let way = flight::approach_to(target, position);
            let east = model::minus(f, target.x, position.x);
            let up = model::minus(f, target.y, position.y);
            let south = model::minus(f, target.z, position.z);
            let epsilon = model::ratio(f, 1, 100_000);
            &&& way.dx == east && way.dz == south
            &&& way.distance == model::plus(
                f,
                model::plus(f, model::times(f, east, east), model::times(f, up, up)),
                model::times(f, south, south),
            )
            &&& way.off_course() <==> epsilon.less(east.absolute()) || epsilon.less(
                south.absolute(),
            )
            &&& points_along(VecView { x: east, y: up, z: south }, way.aim)
        }),
{
    reveal(flight::approach_to);
    directions_keep_direction(target.minus(position));
}

/// Whether a direction is that of an offset, brought to length one by one and the same
/// positive factor on all three axes; or none where there is no such factor.
pub open spec fn points_along(offset: VecView, direction: VecView) -> bool {
    let f = Format::Binary64;
    let square = model::plus(
        f,
        model::plus(f, model::times(f, offset.x, offset.x), model::times(f, offset.y, offset.y)),
        model::times(f, offset.z, offset.z),
    );
    let factor = model::over(f, model::whole(f, 1), model::root(f, square));
    if factor is Finite && factor.signed() > 0 {
        &&& direction.x == model::times(f, offset.x, factor)
        &&& direction.y == model::times(f, offset.y, factor)
        &&& direction.z == model::times(f, offset.z, factor)
    } else {
        direction.x.signed() == 0 && direction.y.signed() == 0 && direction.z.signed() == 0
    }
}

/// A vector brought to length one keeps its direction.
pub proof fn directions_keep_direction(v: VecView)
    ensures
        points_along(v, v.normalized_or_zero()),
{
    order::lemma_whole_is_one(Format::Binary64);
}

/// The dragon is headed along its yaw: the sine points east, the cosine north, and it
/// rises with its velocity.
pub proof fn the_heading_goes_by_the_yaw(sine: Datum, rise: Datum, cosine: Datum)
    ensures
        points_along(
            VecView { x: sine, y: rise, z: cosine.negated() },
            flight::heading_of(sine, rise, cosine),
        ),
{
    reveal(flight::heading_of);
    directions_keep_direction(VecView { x: sine, y: rise, z: cosine.negated() });
}

/// How well the dragon is aimed goes from nothing up with how far its heading points
/// along its aim: nothing from half against it, and one where they are the same.
pub proof fn the_alignment_goes_by_the_heading(
    way: ApproachView,
    heading: VecView,
    other: VecView,
)
    ensures
        ({
            let f = Format::Binary64;
            let along = model::narrowed(heading.dot(way.aim));
            let half = model::ratio(Format::Binary32, 1, 2);
            let none = model::whole(Format::Binary32, 0);
            let alignment = way.alignment(heading);
            &&& none.at_most(alignment)
            &&& half.negated().less(along) ==> alignment == model::over(
                Format::Binary32,
                model::plus(Format::Binary32, along, half),
                model::ratio(Format::Binary32, 3, 2),
            )
            &&& along is Finite && along.at_most(half.negated()) ==> alignment == none
            &&& heading.dot(way.aim) == model::whole(f, 1) ==> alignment == model::whole(
                Format::Binary32,
                1,
            )
            &&& along is Finite && model::narrowed(other.dot(way.aim)) is Finite && along.at_most(
                model::narrowed(other.dot(way.aim)),
            ) ==> alignment.at_most(way.alignment(other))
        }),
{
    reveal(ApproachView::alignment);
    let f = Format::Binary32;
    let none = model::whole(f, 0);
    let half = model::ratio(f, 1, 2);
    let most = model::ratio(f, 3, 2);
    lemma_halves();
    order::lemma_whole_is_one(f);
    let a = model::narrowed(heading.dot(way.aim));
    let b = model::narrowed(other.dot(way.aim));
    let x = model::plus(f, a, half);
    let y = model::plus(f, b, half);
    order::narrowing_keeps_whole_numbers(1);
    if heading.dot(way.aim) == model::whole(Format::Binary64, 1) {
        // one and a half, over itself
        laws::rounding_keeps_numbers(24, 3 * pow2(148), 1);
        lemma_pow2_adds(1, 148);
        lemma2_to64();
        assert(x == most);
        order::over_itself(f, most);
    }
    if half.negated().less(a) {
        if a is Finite && x is Finite {
            assert(x.signed() >= 0) by {
                order::plus_keeps_order(f, half.negated(), a, half, half);
            }
            order::over_keeps_order(f, none, x, most);
            order::lemma_round_zero(24, most->units);
            assert(0 * pow2(149) == 0);
            assert(model::over(f, none, most) == none);
        }
    }
    if a is Finite && a.at_most(half.negated()) {
        assert(x.at_most(none));
        if x is Finite {
            lemma_over_sign(x, most);
        }
    }
    if a is Finite && b is Finite && a.at_most(b) {
        order::plus_keeps_order(f, a, b, half, half);
        if x is Finite && y is Finite {
            order::over_keeps_order(f, x, y, most);
        }
    }
}

/// A number that is not above zero, over one that is, is not above zero.
proof fn lemma_over_sign(x: Datum, c: Datum)
    requires
        x is Finite,
        x.signed() <= 0,
        c is Finite,
        c.signed() > 0,
    ensures
        model::over(Format::Binary32, x, c).at_most(model::whole(Format::Binary32, 0)),
{
    let f = Format::Binary32;
    order::lemma_whole_is_one(f);
    let none = model::whole(f, 0);
    order::over_keeps_order(f, x, none, c);
    order::lemma_round_zero(24, c->units);
    assert(0 * pow2(149) == 0);
    assert(model::over(f, none, c) == none);
}

/// A half and one and a half are exact.
proof fn lemma_halves()
    ensures
        model::ratio(Format::Binary32, 1, 2) == (Datum::Finite {
            negative: false,
            units: pow2(148),
        }),
        model::ratio(Format::Binary32, 3, 2) == (Datum::Finite {
            negative: false,
            units: 3 * pow2(148),
        }),
        laws::holds(24, 3 * pow2(148)),
        pow2(149) == 2 * pow2(148),
        pow2(148) > 0,
{
    let h = pow2(148);
    lemma_pow2_adds(1, 148);
    lemma2_to64();
    lemma2_to64_rest();
    lemma_pow2_pos(148);
    lemma_pow2_strictly_increases(150, 277);
    lemma_pow2_adds(2, 148);
    assert(laws::holds(24, h)) by {
        assert(h == 1nat * pow2(148));
    }
    assert(laws::holds(24, 3 * h)) by {
        assert(3 * h == 3nat * pow2(148));
    }
    assert(1 * pow2(149) == h * 2);
    assert(3 * pow2(149) == (3 * h) * 2);
    laws::rounding_keeps_numbers(24, h, 2);
    laws::rounding_keeps_numbers(24, 3 * h, 2);
}

/// The thrust, six hundredths of what the alignment weighs in for near the target and
/// of one farther off; a better aim makes for no less of it, and without end to the
/// distance it is all six hundredths, however the dragon is aimed.
pub proof fn the_thrust_goes_by_aim_and_distance(way: ApproachView, small: Datum, large: Datum)
    requires
        small is Finite,
        large is Finite,
        small.at_most(large),
        small.signed() >= 0,
        way.distance !is Nan,
        model::whole(Format::Binary64, 0).at_most(way.distance),
    ensures
        ({
            let f = Format::Binary32;
            let d = Format::Binary64;
            let span = model::narrowed(
                model::over(
                    d,
                    model::whole(d, 2),
                    model::plus(d, way.distance, model::whole(d, 1)),
                ),
            );
            let share = model::plus(
                f,
                model::times(f, small, span),
                model::minus(f, model::whole(f, 1), span),
            );
            &&& way.thrust(small) == model::times(f, model::ratio(f, 6, 100), share)
            &&& way.distance is Infinite ==> way.thrust(small) == model::ratio(f, 6, 100)
            &&& way.thrust(small) is Finite && way.thrust(large) is Finite && share is Finite
                && model::plus(
                f,
                model::times(f, large, span),
                model::minus(f, model::whole(f, 1), span),
            ) is Finite ==> way.thrust(small).at_most(way.thrust(large))
        }),
{
    reveal(ApproachView::thrust);
    let f = Format::Binary32;
    let d = Format::Binary64;
    let one = model::whole(f, 1);
    let longer = model::plus(d, way.distance, model::whole(d, 1));
    let span = model::narrowed(model::over(d, model::whole(d, 2), longer));
    let six = model::ratio(f, 6, 100);
    order::ratios_up_to_one(f, 6, 100);
    order::lemma_whole_is_one(f);
    order::lemma_whole_is_one(d);
    lemma_span(way.distance);
    if way.distance is Infinite {
        lemma_pow2_pos(925);
        order::lemma_round_zero(24, pow2(925));
        assert(span == (Datum::Finite { negative: false, units: 0 }));
        order::lemma_round_zero(24, pow2(149));
        assert(small->units * 0 == 0);
        laws::rounding_keeps_numbers(24, pow2(149), 1);
        assert(model::minus(f, one, span) == one);
        assert(model::times(f, small, span).signed() == 0);
        assert(model::plus(f, model::times(f, small, span), one) == one);
        order::times_one(f, six);
    }
    let a = model::plus(f, model::times(f, small, span), model::minus(f, one, span));
    let b = model::plus(f, model::times(f, large, span), model::minus(f, one, span));
    if a is Finite && b is Finite {
        order::times_keeps_order(f, small, large, span);
        order::plus_keeps_order(
            f,
            model::times(f, small, span),
            model::times(f, large, span),
            model::minus(f, one, span),
            model::minus(f, one, span),
        );
        order::times_keeps_order(f, a, b, six);
    }
}

/// The span that weighs the alignment in is a number from zero to two.
proof fn lemma_span(distance: Datum)
    requires
        distance !is Nan,
        model::whole(Format::Binary64, 0).at_most(distance),
    ensures
        ({
            let d = Format::Binary64;
            let span = model::narrowed(
                model::over(
                    d,
                    model::whole(d, 2),
                    model::plus(d, distance, model::whole(d, 1)),
                ),
            );
            &&& span is Finite
            &&& span.signed() >= 0
        }),
{
    let d = Format::Binary64;
    let one = model::whole(d, 1);
    let two = model::whole(d, 2);
    let none = model::whole(d, 0);
    let longer = model::plus(d, distance, one);
    order::lemma_whole_is_one(d);
    order::lemma_whole_order(d, 0, 2);
    lemma_pow2_pos(925);
    lemma2_to64();
    lemma2_to64_rest();
    order::lemma_round_zero(24, pow2(925));
    order::narrowing_keeps_whole_numbers(2);
    order::lemma_whole_order(Format::Binary32, 0, 2);
    order::lemma_with_nothing(d, one);
    order::whole_sums_are_exact(d, 0, 1);
    order::plus_keeps_order(d, none, distance, one, one);
    if longer is Finite {
        order::over_turns_order(d, two, one, longer);
        assert(2nat * pow2(1074) == two->units);
        lemma_over_one(2);
        order::lemma_round_zero(53, longer->units);
        assert(0 * pow2(1074) == 0);
        order::over_keeps_order(d, none, two, longer);
        let q = model::over(d, two, longer);
        assert(q.at_most(two));
        assert(none.at_most(q));
        order::narrowing_keeps_order(q, two);
        order::narrowing_keeps_order(none, q);
    }
}

/// A small whole number over one is itself.
proof fn lemma_over_one(n: int)
    requires
        0 <= n < 0x100_0000,
    ensures
        model::over(Format::Binary64, model::whole(Format::Binary64, n), model::whole(
            Format::Binary64,
            1,
        )) == model::whole(Format::Binary64, n),
{
    let d = Format::Binary64;
    lemma2_to64();
    lemma2_to64_rest();
    order::lemma_whole_fits(d, n);
    order::lemma_whole_is_one(d);
    laws::rounding_keeps_numbers(53, n as nat * pow2(1074), pow2(1074));
}

/// The drag takes nine hundredths of the vertical velocity, so that it never grows and
/// never turns; sideways it takes one and the same share on both axes, which is the
/// smaller the better the dragon flies along its heading. Nothing else changes.
pub proof fn the_drag_slows_the_dragon_down(dragon: DragonView, heading: VecView)
    ensures
        ({
            let f = Format::Binary64;
            let before = dragon.base.velocity;
            let after = dragon.dragged(heading).base.velocity;
            let slide = slide_along(before.normalized_or_zero().dot(heading));
            &&& after.x == model::times(f, before.x, slide)
            &&& after.z == model::times(f, before.z, slide)
            &&& after.y == model::times(f, before.y, model::ratio(f, 91, 100))
            &&& before.y is Finite && order::fits(f, before.y) && before.y.signed() >= 0
                ==> after.y.at_most(before.y) && model::whole(f, 0).at_most(after.y)
            &&& before.y is Finite && order::fits(f, before.y) && before.y.signed() <= 0
                ==> before.y.at_most(after.y) && after.y.at_most(model::whole(f, 0))
            &&& dragon.dragged(heading) == (DragonView {
                base: BaseView { velocity: after, ..dragon.base },
                ..dragon
            })
        }),
{
    reveal(flight::velocity_dragged);
    let f = Format::Binary64;
    let v = dragon.base.velocity.y;
    let kept = model::ratio(f, 91, 100);
    order::ratios_up_to_one(f, 91, 100);
    order::lemma_whole_is_one(f);
    if v is Finite && order::fits(f, v) {
        let size = v.absolute();
        let none = model::whole(f, 0);
        order::times_one(f, v);
        lemma_pow2_pos(1074);
        order::lemma_round_zero(53, pow2(1074));
        assert(0 * kept->units == 0);
        assert(model::times(f, none, kept) == none);
        if v.signed() >= 0 {
            order::times_keeps_order(f, kept, model::whole(f, 1), v);
            order::times_keeps_order(f, none, v, kept);
        } else {
            order::times_one(f, size);
            order::times_keeps_order(f, kept, model::whole(f, 1), size);
            order::times_keeps_order(f, v, none, kept);
        }
    }
}

/// The share of the sideways velocity that the drag leaves: four fifths where the
/// dragon flies against its heading, and up to fifteen hundredths more along it.
pub open spec fn slide_along(along: Datum) -> Datum {
    let f = Format::Binary64;
    model::plus(
        f,
        model::ratio(f, 4, 5),
        model::over(
            f,
            model::times(f, model::ratio(f, 15, 100), model::plus(f, along, model::whole(f, 1))),
            model::whole(f, 2),
        ),
    )
}

/// The better the dragon flies along its heading, the less the drag takes: four fifths
/// are left where it flies against it, and never less where it does not.
pub proof fn flying_straight_is_dragged_less(worse: Datum, better: Datum)
    requires
        worse is Finite,
        better is Finite,
        model::whole(Format::Binary64, -1).at_most(worse),
        worse.at_most(better),
        better.at_most(model::whole(Format::Binary64, 1)),
    ensures
        model::ratio(Format::Binary64, 4, 5).at_most(slide_along(worse)),
        slide_along(worse).at_most(slide_along(better)),
        worse == model::whole(Format::Binary64, -1) ==> slide_along(worse) == model::ratio(
            Format::Binary64,
            4,
            5,
        ),
{
    let f = Format::Binary64;
    let one = model::whole(f, 1);
    let none = model::whole(f, 0);
    let minus_one = model::whole(f, -1);
    let part = model::ratio(f, 15, 100);
    let four_fifths = model::ratio(f, 4, 5);
    let two = model::whole(f, 2);
    order::ratios_up_to_one(f, 15, 100);
    order::ratios_up_to_one(f, 4, 5);
    order::lemma_whole_is_one(f);
    order::lemma_whole_order(f, 0, 2);
    assert(minus_one == (Datum::Finite { negative: true, units: pow2(1074) }));
    assert(model::plus(f, minus_one, one) == none);
    let a = model::plus(f, worse, one);
    let b = model::plus(f, better, one);
    order::plus_keeps_order(f, minus_one, worse, one, one);
    order::plus_keeps_order(f, worse, better, one, one);
    lemma2_to64();
    lemma2_to64_rest();
    order::whole_sums_are_exact(f, 1, 1);
    order::plus_keeps_order(f, better, one, one, one);
    lemma_bounded(none, a, two);
    lemma_bounded(none, b, two);
    order::times_keeps_order(f, none, a, part);
    order::times_keeps_order(f, a, b, part);
    order::times_keeps_order(f, b, two, part);
    order::times_keeps_order(f, part, one, two);
    order::lemma_whole_fits(f, 2);
    order::times_one(f, two);
    order::lemma_round_zero(53, pow2(1074));
    assert(part->units * 0 == 0);
    assert(model::times(f, part, none) == none);
    let x = model::times(f, part, a);
    let y = model::times(f, part, b);
    lemma_bounded(none, x, two);
    lemma_bounded(none, y, two);
    order::over_keeps_order(f, none, x, two);
    order::over_keeps_order(f, x, y, two);
    order::over_keeps_order(f, y, two, two);
    order::over_itself(f, two);
    order::lemma_round_zero(53, two->units);
    assert(0 * pow2(1074) == 0);
    assert(model::over(f, none, two) == none);
    let p = model::over(f, x, two);
    let q = model::over(f, y, two);
    lemma_bounded(none, p, one);
    lemma_bounded(none, q, one);
    order::plus_keeps_order(f, four_fifths, four_fifths, none, p);
    order::plus_keeps_order(f, four_fifths, four_fifths, p, q);
    order::lemma_with_nothing(f, four_fifths);
    if four_fifths != (Datum::Finite { negative: true, units: 0 }) {
        order::adding_nothing_changes_nothing(f, four_fifths);
    }
}

/// What lies between two finite numbers is one.
proof fn lemma_bounded(low: Datum, d: Datum, high: Datum)
    requires
        low is Finite,
        high is Finite,
        low.at_most(d),
        d.at_most(high),
    ensures
        d is Finite,
        low.signed() <= d.signed() <= high.signed(),
{
}

/// The wings of a perched dragon keep a pace of their own, a tenth of a beat a tick,
/// however fast it is. In flight the beat is slower the faster the dragon is over
/// ground and quicker the more it rises, and half as quick in a wall. The last beat is
/// kept, and nothing else changes.
pub proof fn the_wings_keep_their_pace(dragon: DragonView, ground_speed: Datum, lift: Datum)
    ensures
        ({
            let f = Format::Binary32;
            let after = dragon.flapped(ground_speed, lift);
            let beat = beat_of(ground_speed, lift);
            &&& after.o_flap_time == dragon.flap_time
            &&& dragon.phase.sits() ==> after.flap_time == model::plus(
                f,
                dragon.flap_time,
                model::ratio(f, 1, 10),
            )
            &&& !dragon.phase.sits() && !dragon.in_wall ==> after.flap_time == model::plus(
                f,
                dragon.flap_time,
                beat,
            )
            &&& !dragon.phase.sits() && dragon.in_wall ==> after.flap_time == model::plus(
                f,
                dragon.flap_time,
                model::times(f, beat, model::ratio(f, 1, 2)),
            )
            &&& after == (DragonView {
                flap_time: after.flap_time,
                o_flap_time: after.o_flap_time,
                ..dragon
            })
        }),
{
    reveal(flight::flap_speed);
    reveal(flight::flap_after);
}

/// How far the wings get in a tick: a fifth of a beat at rest, over one more than ten
/// times the speed over ground, times what the rise makes of it.
pub open spec fn beat_of(ground_speed: Datum, lift: Datum) -> Datum {
    let f = Format::Binary32;
    model::times(
        f,
        model::over(
            f,
            model::ratio(f, 1, 5),
            model::plus(
                f,
                model::times(f, ground_speed, model::whole(f, 10)),
                model::whole(f, 1),
            ),
        ),
        lift,
    )
}

/// The faster over ground, the slower the wings beat; the more rise, the quicker.
pub proof fn speed_slows_the_wings(slow: Datum, fast: Datum, less: Datum, more: Datum)
    requires
        slow is Finite,
        fast is Finite,
        slow.signed() >= 0,
        slow.at_most(fast),
        model::plus(
            Format::Binary32,
            model::times(Format::Binary32, fast, model::whole(Format::Binary32, 10)),
            model::whole(Format::Binary32, 1),
        ) is Finite,
        less is Finite,
        more is Finite,
        less.signed() >= 0,
        less.at_most(more),
    ensures
        beat_of(fast, less).at_most(beat_of(slow, less)),
        beat_of(slow, less).at_most(beat_of(slow, more)),
{
    let f = Format::Binary32;
    let one = model::whole(f, 1);
    let none = model::whole(f, 0);
    let ten = model::whole(f, 10);
    let fifth = model::ratio(f, 1, 5);
    order::ratios_up_to_one(f, 1, 5);
    order::lemma_whole_is_one(f);
    lemma_pow2_pos(149);
    lemma2_to64();
    lemma2_to64_rest();
    assert(ten is Finite && ten.signed() >= 0);
    order::times_keeps_order(f, slow, fast, ten);
    order::times_keeps_order(f, none, slow, ten);
    order::lemma_round_zero(24, pow2(149));
    assert(0 * ten->units == 0);
    assert(model::times(f, none, ten) == none);
    let a = model::plus(f, model::times(f, slow, ten), one);
    let b = model::plus(f, model::times(f, fast, ten), one);
    order::whole_sums_are_exact(f, 0, 1);
    order::plus_keeps_order(f, none, model::times(f, slow, ten), one, one);
    order::plus_keeps_order(f, model::times(f, slow, ten), model::times(f, fast, ten), one, one);
    lemma_bounded(one, a, b);
    lemma_bounded(one, b, b);
    order::over_turns_order(f, fifth, a, b);
    order::over_turns_order(f, fifth, one, a);
    order::over_turns_order(f, fifth, one, b);
    order::over_keeps_order(f, none, fifth, a);
    order::over_keeps_order(f, none, fifth, b);
    order::lemma_round_zero(24, a->units);
    order::lemma_round_zero(24, b->units);
    assert(0 * pow2(149) == 0);
    assert(model::over(f, none, a) == none);
    assert(model::over(f, none, b) == none);
    lemma_single_over_one(fifth);
    let x = model::over(f, fifth, b);
    let y = model::over(f, fifth, a);
    lemma_bounded(none, x, fifth);
    lemma_bounded(none, y, fifth);
    order::times_keeps_order(f, x, y, less);
    order::times_keeps_order(f, less, more, y);
}

/// A number of 32 bits over one is itself.
proof fn lemma_single_over_one(a: Datum)
    requires
        a is Finite,
        !a->Finite_negative,
        order::fits(Format::Binary32, a),
    ensures
        model::over(Format::Binary32, a, model::whole(Format::Binary32, 1)) == a,
{
    order::lemma_whole_is_one(Format::Binary32);
    laws::rounding_keeps_numbers(24, a->units, pow2(149));
}

/// What a dragon moves by: its velocity, or four fifths of it, axis by axis, in a wall.
pub proof fn the_way_in_a_wall_is_shorter(dragon: DragonView)
    ensures
        ({
            let f = Format::Binary64;
            let v = dragon.base.velocity;
            let short = model::ratio(f, 4, 5);
            &&& !dragon.in_wall ==> dragon.movement() == v
            &&& dragon.in_wall ==> dragon.movement() == (VecView {
                x: model::times(f, v.x, short),
                y: model::times(f, v.y, short),
                z: model::times(f, v.z, short),
            })
        }),
{
    reveal(flight::velocity_in_wall);
}

/// The wings are heard where the last beat was at three tenths below the middle or
/// lower and this one is not; each beat is a whole turn of its angle.
pub proof fn the_wings_are_heard_as_they_sweep_down<H: DragonHost>(
    dragon: DragonView,
    answers: brain::FlapAnswers,
)
    ensures
        ({
            let f = Format::Binary32;
            let tau = model::decode(f, 0x40C9_0FDB);
            let low = model::ratio(f, 3, 10).negated();
            &&& brain::flap_calls::<H>(dragon, answers) == seq![
                HostCall::<H>::CosineSingle {
                    angle: model::times(f, dragon.flap_time, tau),
                    answer: answers.now,
                },
                HostCall::<H>::CosineSingle {
                    angle: model::times(f, dragon.o_flap_time, tau),
                    answer: answers.before,
                },
            ]
            &&& brain::sweeps_down(answers.now@, answers.before@) <==> answers.before@.at_most(low)
                && low.at_most(answers.now@)
        }),
{
}

/// How fast the dragon flies: at three when it flies to die, and otherwise as its phase
/// has it.
pub open spec fn speed_in(phase: EnderDragonPhase, speed: crate::host::FlySpeed) -> Datum {
    if phase == EnderDragonPhase::Dying {
        model::whole(Format::Binary32, 3)
    } else {
        speed.number()
    }
}

/// Where steering leaves the dragon. It ends where the move took it, and has run into
/// what the move ran into. Its velocity is the one that the move left, dragged along
/// the heading from before the turn, which rises as the climb has it. Its yaw is in
/// range, and turned by a tenth of the new turn rate where it was off course.
pub proof fn where_steering_leads<H: DragonHost>(
    dragon: DragonView,
    phase: EnderDragonPhase,
    target: VecView,
    answers: SteerAnswers<H>,
)
    ensures
        ({
            let after = dragon.steered(phase, target, answers);
            let moved = answers.moving.moved;
            let rise = dragon.climbed(target, speed_in(phase, answers.speed)).base.velocity.y;
            let heading = flight::heading_of(
                answers.facing.sine@,
                rise,
                answers.facing.cosine@,
            );
            let way = flight::approach_to(target, dragon.base.position);
            let turned = (DragonView {
                base: BaseView { yaw: answers.facing.yaw@, ..dragon.base },
                ..dragon
            }).turned(answers.course.error@, answers.course.turn_speed@);
            &&& after.base.position == moved.position@
            &&& after.base.horizontal_collision == moved.horizontal_collision
            &&& after.base.vertical_collision == moved.vertical_collision
            &&& after.base.velocity == flight::velocity_dragged(moved.velocity@, heading)
            &&& way.off_course() ==> after.base.yaw == turned.base.yaw && after.y_rot_a
                == turned.y_rot_a
            &&& !way.off_course() ==> after.base.yaw == answers.facing.yaw@ && after.y_rot_a
                == dragon.y_rot_a
        }),
{
}

/// What steering asks, in order. Unless it flies to die, the dragon asks its phase for a
/// target and a speed. It has its yaw brought in range, and takes the sine and the
/// cosine of that. Where the target is off to a side, it takes the bearing of the
/// target, east before south, and has the difference to its own course brought in
/// range. Then it is pushed straight ahead, once, and moves by what the push left it
/// with, once.
pub proof fn what_steering_asks<H: DragonHost>(
    dragon: DragonView,
    phase: EnderDragonPhase,
    target: VecView,
    answers: SteerAnswers<H>,
)
    requires
        dragon.goal(phase, answers.goal) == Some(target),
    ensures
        ({
            let calls = brain::steer_calls(dragon, phase, answers);
            let at: int = if phase == EnderDragonPhase::Dying {
                0
            } else {
                2
            };
            let way = flight::approach_to(target, dragon.base.position);
            let n: int = if way.off_course() {
                at + 8
            } else {
                at + 4
            };
            let angle = model::widened(answers.facing.radians@);
            &&& calls.len() == n + 2
            &&& phase != EnderDragonPhase::Dying ==> calls[0] == (HostCall::<H>::FlyTargetLocation {
                phase,
                answer: answers.goal,
            }) && calls[1] == (HostCall::<H>::FlySpeed { phase, answer: answers.speed })
            &&& calls[at] == (HostCall::<H>::WrapDegrees {
                degrees: dragon.base.yaw,
                answer: answers.facing.yaw,
            })
            &&& calls[at + 1] == (HostCall::<H>::ToRadians {
                degrees: answers.facing.yaw@,
                answer: answers.facing.radians,
            })
            &&& calls[at + 2] == (HostCall::<H>::Sine { angle, answer: answers.facing.sine })
            &&& calls[at + 3] == (HostCall::<H>::Cosine { angle, answer: answers.facing.cosine })
            &&& way.off_course() ==> asks_for_course(
                dragon,
                phase,
                target,
                answers,
                calls.subrange(at + 4, at + 8),
            )
            &&& asks_to_move(dragon, phase, target, answers, calls.subrange(n, n + 2))
        }),
{
    let way = flight::approach_to(target, dragon.base.position);
    let faced = dragon.faced(phase, target, answers);
    let heading = dragon.headed(phase, target, answers);
    let turned = faced.corrected(way, answers.course);
    let begun = brain::goal_calls::<H>(phase, answers.goal) + brain::pace_calls(
        phase,
        answers.speed,
    );
    let facing = brain::facing_calls::<H>(dragon, answers.facing);
    let course = brain::course_calls::<H>(faced, phase, way, answers.course);
    let moving = brain::move_calls(turned, way, heading, answers.moving);
    let calls = brain::steer_calls(dragon, phase, answers);
    let at: int = begun.len() as int;
    let n: int = at + 4 + course.len();
    assert(calls == begun + facing + course + moving);
    assert(calls.subrange(n, n + 2) =~= moving);
    if way.off_course() {
        assert(calls.subrange(at + 4, at + 8) =~= course);
        lemma_asks_for_course(dragon, phase, target, answers);
    }
    lemma_asks_to_move(dragon, phase, target, answers);
}

/// Whether the calls are those by which a dragon that is off course finds its way.
pub open spec fn asks_for_course<H: DragonHost>(
    dragon: DragonView,
    phase: EnderDragonPhase,
    target: VecView,
    answers: SteerAnswers<H>,
    calls: Seq<HostCall<H>>,
) -> bool {
    let f = Format::Binary32;
    let course = answers.course;
    &&& calls[0] == (HostCall::<H>::ArcTangent {
        dx: model::minus(Format::Binary64, target.x, dragon.base.position.x),
        dz: model::minus(Format::Binary64, target.z, dragon.base.position.z),
        answer: course.arc,
    })
    &&& calls[1] == (HostCall::<H>::ToDegrees {
        radians: model::narrowed(course.arc@),
        answer: course.bearing,
    })
    &&& calls[2] == (HostCall::<H>::WrapDegrees {
        degrees: model::minus(
            f,
            model::minus(f, model::whole(f, 180), course.bearing@),
            answers.facing.yaw@,
        ),
        answer: course.error,
    })
    &&& calls[3] is TurnSpeed
    &&& calls[3]->TurnSpeed_phase == phase
    &&& calls[3]->TurnSpeed_answer == course.turn_speed
    &&& calls[3]->TurnSpeed_dragon.base.yaw == answers.facing.yaw@
    &&& calls[3]->TurnSpeed_dragon.base.position == dragon.base.position
}

proof fn lemma_asks_for_course<H: DragonHost>(
    dragon: DragonView,
    phase: EnderDragonPhase,
    target: VecView,
    answers: SteerAnswers<H>,
)
    requires
        flight::approach_to(target, dragon.base.position).off_course(),
    ensures
        asks_for_course(
            dragon,
            phase,
            target,
            answers,
            brain::course_calls::<H>(
                dragon.faced(phase, target, answers),
                phase,
                flight::approach_to(target, dragon.base.position),
                answers.course,
            ),
        ),
{
    reveal(flight::approach_to);
}

/// Whether the calls are those by which the dragon moves: a push straight ahead, with
/// the thrust that its aim and its distance make for, on the dragon as it has climbed
/// and turned; and a move by what the push left it with, shorter in a wall.
pub open spec fn asks_to_move<H: DragonHost>(
    dragon: DragonView,
    phase: EnderDragonPhase,
    target: VecView,
    answers: SteerAnswers<H>,
    calls: Seq<HostCall<H>>,
) -> bool {
    let d = Format::Binary64;
    let way = flight::approach_to(target, dragon.base.position);
    let climbed = dragon.climbed(target, speed_in(phase, answers.speed));
    let heading = flight::heading_of(
        answers.facing.sine@,
        climbed.base.velocity.y,
        answers.facing.cosine@,
    );
    &&& calls[0] is MoveRelative
    &&& calls[0]->MoveRelative_amount == way.thrust(way.alignment(heading))
    &&& calls[0]->MoveRelative_direction == (VecView {
        x: model::whole(d, 0),
        y: model::whole(d, 0),
        z: model::whole(d, -1),
    })
    &&& calls[0]->MoveRelative_answer == answers.moving.pushed
    &&& calls[0]->MoveRelative_dragon.base.velocity == climbed.base.velocity
    &&& calls[0]->MoveRelative_dragon.base.position == dragon.base.position
    &&& calls[0]->MoveRelative_dragon.base.yaw == dragon.steered(
        phase,
        target,
        answers,
    ).base.yaw
    &&& calls[1] is MoveEntity
    &&& calls[1]->MoveEntity_answer == answers.moving.moved
    &&& calls[1]->MoveEntity_dragon.base.velocity == answers.moving.pushed@
    &&& calls[1]->MoveEntity_dragon.base.position == dragon.base.position
    &&& !dragon.in_wall ==> calls[1]->MoveEntity_movement == answers.moving.pushed@
    &&& dragon.in_wall ==> calls[1]->MoveEntity_movement == answers.moving.pushed@.times(
        VecView {
            x: model::ratio(d, 4, 5),
            y: model::ratio(d, 4, 5),
            z: model::ratio(d, 4, 5),
        },
    )
}

proof fn lemma_asks_to_move<H: DragonHost>(
    dragon: DragonView,
    phase: EnderDragonPhase,
    target: VecView,
    answers: SteerAnswers<H>,
)
    ensures
        ({
            let way = flight::approach_to(target, dragon.base.position);
            asks_to_move(
                dragon,
                phase,
                target,
                answers,
                brain::move_calls(
                    dragon.faced(phase, target, answers).corrected(way, answers.course),
                    way,
                    dragon.headed(phase, target, answers),
                    answers.moving,
                ),
            )
        }),
{
    reveal(flight::velocity_in_wall);
}

/// Where the dragon flies to: to the podium when it flies to die, and otherwise where
/// its phase has it. With nowhere to fly it asks nothing further and stays as it is.
pub proof fn the_target_is_that_of_the_phase<H: DragonHost>(
    dragon: DragonView,
    phase: EnderDragonPhase,
    answers: SteerAnswers<H>,
)
    ensures
        phase == EnderDragonPhase::Dying ==> dragon.goal(phase, answers.goal)
            == dragon.death_target,
        phase != EnderDragonPhase::Dying ==> dragon.goal(phase, answers.goal)
            == match answers.goal {
            Some(point) => Some(point@),
            None => None,
        },
        dragon.goal(phase, answers.goal) is None ==> {
            &&& dragon.flown(phase, answers) == dragon
            &&& brain::steer_result(dragon, phase, answers) is None
            &&& brain::steer_calls(dragon, phase, answers).len() <= 1
        },
        dragon.goal(phase, answers.goal) matches Some(target) ==> {
            &&& dragon.flown(phase, answers) == dragon.steered(phase, target, answers)
            &&& brain::steer_result(dragon, phase, answers) == answers.moving.moved.result
        },
{
}

/// Vectors are worked on axis by axis, and inner products take in all three.
pub proof fn vectors_go_axis_by_axis(a: VecView, b: VecView, factor: Datum)
    ensures
        ({
            let f = Format::Binary64;
            &&& a.plus(b) == (VecView {
                x: model::plus(f, a.x, b.x),
                y: model::plus(f, a.y, b.y),
                z: model::plus(f, a.z, b.z),
            })
            &&& a.minus(b) == (VecView {
                x: model::minus(f, a.x, b.x),
                y: model::minus(f, a.y, b.y),
                z: model::minus(f, a.z, b.z),
            })
            &&& a.times(b) == (VecView {
                x: model::times(f, a.x, b.x),
                y: model::times(f, a.y, b.y),
                z: model::times(f, a.z, b.z),
            })
            &&& a.scaled(factor) == (VecView {
                x: model::times(f, a.x, factor),
                y: model::times(f, a.y, factor),
                z: model::times(f, a.z, factor),
            })
            &&& a.dot(b) == model::plus(
                f,
                model::plus(f, model::times(f, a.x, b.x), model::times(f, a.y, b.y)),
                model::times(f, a.z, b.z),
            )
            &&& a.distance_squared(b) == a.minus(b).dot(a.minus(b))
            &&& VecView::zero().x == model::whole(f, 0) && VecView::zero().y == model::whole(f, 0)
            &&& VecView::zero().z == model::whole(f, 0)
        }),
{
}

/// The dragon's AI is off exactly where its flags are odd.
pub proof fn ai_goes_by_the_lowest_flag(dragon: DragonView, half: int)
    ensures
        dragon.mob_flags == 2 * half ==> !dragon.has_no_ai(),
        dragon.mob_flags == 2 * half + 1 ==> dragon.has_no_ai(),
{
}

/// A hitbox stands on its position and has it in its middle: it reaches half its width
/// to either side, and up by its height.
pub proof fn hitboxes_stand_on_their_position(part: EnderDragonPart)
    requires
        part.width@ is Finite,
        part.width@.signed() >= 0,
        part.height@ is Finite,
        part.height@.signed() >= 0,
        part.position.x@ is Finite,
        part.position.y@ is Finite,
        part.position.z@ is Finite,
    ensures
        ({
            let f = Format::Binary64;
            let (low, high, at) = (part@.lowest(), part@.highest(), part.position@);
            let half = model::over(f, model::widened(part.width@), model::whole(f, 2));
            &&& low.x.at_most(at.x) && at.x.at_most(high.x)
            &&& low.z.at_most(at.z) && at.z.at_most(high.z)
            &&& low.x == model::minus(f, at.x, half) && high.x == model::plus(f, at.x, half)
            &&& low.z == model::minus(f, at.z, half) && high.z == model::plus(f, at.z, half)
            &&& low.y == at.y
            &&& at.y.at_most(high.y)
            &&& high.y == model::plus(f, at.y, model::widened(part.height@))
        }),
{
    let f = Format::Binary64;
    let none = model::whole(f, 0);
    let two = model::whole(f, 2);
    let w = model::widened(part.width@);
    let h = model::widened(part.height@);
    let half = model::over(f, w, two);
    let at = part.position@;
    order::lemma_whole_is_one(f);
    order::lemma_whole_order(f, 0, 2);
    order::lemma_round_zero(53, two->units);
    crate::float::nearest::widening_changes_no_value(part.width@);
    crate::float::nearest::widening_changes_no_value(part.height@);
    lemma_pow2_pos(925);
    let (u, v) = (part.width@.signed(), part.height@.signed());
    assert(u * pow2(925) >= 0) by (nonlinear_arith)
        requires
            u >= 0,
    ;
    assert(v * pow2(925) >= 0) by (nonlinear_arith)
        requires
            v >= 0,
    ;
    order::over_keeps_order(f, none, w, two);
    assert(0 * pow2(1074) == 0);
    assert(model::over(f, none, two) == none);
    order::doubles_fit(part.position.x);
    order::doubles_fit(part.position.y);
    order::doubles_fit(part.position.z);
    order::lemma_with_nothing(f, at.x);
    order::lemma_with_nothing(f, at.y);
    order::lemma_with_nothing(f, at.z);
    order::plus_keeps_order(f, at.x, at.x, none, half);
    order::plus_keeps_order(f, at.z, at.z, none, half);
    order::plus_keeps_order(f, at.y, at.y, none, h);
    order::plus_keeps_order(f, at.x, at.x, half.negated(), none);
    order::plus_keeps_order(f, at.z, at.z, half.negated(), none);
    laws::rounding_keeps_numbers(53, at.y->units, 1);
}

} // verus!

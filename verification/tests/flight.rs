use std::cell::RefCell;

use ender_dragon::block::BlockPos;
use ender_dragon::damage::DamageSource;
use ender_dragon::dragon::EnderDragonEntity;
use ender_dragon::flight::TAU_BITS;
use ender_dragon::float::double::Double;
use ender_dragon::float::single::Single;
use ender_dragon::host::{DragonHost, FlySpeed, HeightmapType, Hurt, Moved, PhaseTick, Watched};
use ender_dragon::part::{EntityDimensions, EntityType, MaxHealth};
use ender_dragon::phase::EnderDragonPhase;
use ender_dragon::vector::Vec3;
use glam::DVec3;

fn single(x: f32) -> Single {
    Single::from_bits(x.to_bits())
}

fn double(x: f64) -> Double {
    Double::from_bits(x.to_bits())
}

fn number(x: Single) -> f32 {
    f32::from_bits(x.to_bits())
}

fn wide(x: Double) -> f64 {
    f64::from_bits(x.to_bits())
}

fn ours(v: DVec3) -> Vec3 {
    Vec3::new(double(v.x), double(v.y), double(v.z))
}

fn theirs(v: Vec3) -> DVec3 {
    DVec3::new(wide(v.x), wide(v.y), wide(v.z))
}

fn wrap_degrees(degrees: f32) -> f32 {
    let mut wrapped = degrees % 360.0;
    if wrapped >= 180.0 {
        wrapped -= 360.0;
    }
    if wrapped < -180.0 {
        wrapped += 360.0;
    }
    wrapped
}

/// Open air, a target for the holding pattern, and a hand-off where asked for.
struct Sky {
    target: Option<DVec3>,
    fly_speed: f32,
    turn_speed: f32,
    hand_off: Vec<(EnderDragonPhase, EnderDragonPhase)>,
    log: RefCell<Vec<String>>,
}

fn sky(target: Option<DVec3>) -> Sky {
    Sky {
        target,
        fly_speed: 0.6,
        turn_speed: 0.35,
        hand_off: Vec::new(),
        log: RefCell::new(Vec::new()),
    }
}

impl Sky {
    fn note(&self, what: String) {
        self.log.borrow_mut().push(what);
    }
}

impl DragonHost for Sky {
    type Entity = i32;
    type MoveResult = f64;

    fn wrap_degrees(&self, degrees: Single) -> Single {
        single(wrap_degrees(number(degrees)))
    }
    fn to_radians(&self, degrees: Single) -> Single {
        single(number(degrees).to_radians())
    }
    fn to_degrees(&self, radians: Single) -> Single {
        single(number(radians).to_degrees())
    }
    fn sine(&self, angle: Double) -> Double {
        double(wide(angle).sin())
    }
    fn cosine(&self, angle: Double) -> Double {
        double(wide(angle).cos())
    }
    fn cosine_single(&self, angle: Single) -> Single {
        single(number(angle).cos())
    }
    fn arc_tangent(&self, dx: Double, dz: Double) -> Double {
        double(wide(dx).atan2(wide(dz)))
    }
    fn hypotenuse(&self, x: Double, z: Double) -> Double {
        double(wide(x).hypot(wide(z)))
    }
    fn power_of_two(&self, exponent: Single) -> Single {
        single(2.0_f32.powf(number(exponent)))
    }
    fn fly_speed(&self, _phase: EnderDragonPhase) -> FlySpeed {
        FlySpeed::new(single(self.fly_speed)).expect("a speed")
    }
    fn fly_target_location(&self, _phase: EnderDragonPhase) -> Option<Vec3> {
        self.target.map(ours)
    }
    fn turn_speed(&self, _dragon: &EnderDragonEntity, _phase: EnderDragonPhase) -> Single {
        single(self.turn_speed)
    }
    fn do_server_tick(
        &self,
        dragon: &EnderDragonEntity,
        phase: EnderDragonPhase,
    ) -> PhaseTick {
        self.note(format!("tick {}", phase.id()));
        let mut tick = PhaseTick::unchanged(dragon);
        if phase == EnderDragonPhase::SittingScanning {
            tick.yaw = single(33.0);
            tick.y_rot_a = single(4.0);
            tick.pitch = single(-7.0);
            tick.velocity = ours(DVec3::new(0.0, 0.5, 0.0));
            tick.position = ours(DVec3::new(1.0, 2.0, 3.0));
            tick.health = Some(single(1000.0));
        }
        for &(from, to) in &self.hand_off {
            if from == phase {
                tick.next = Some(to);
                return tick;
            }
        }
        tick
    }
    fn begin(&self, dragon: &EnderDragonEntity, phase: EnderDragonPhase) {
        assert_eq!(dragon.synced_phase(), phase.id());
        self.note(format!("begin {}", phase.id()));
    }
    fn end(&self, dragon: &EnderDragonEntity, phase: EnderDragonPhase) {
        assert_eq!(dragon.synced_phase(), phase.id());
        self.note(format!("end {}", phase.id()));
    }
    fn on_hurt(&self, _phase: EnderDragonPhase, _source: &DamageSource, damage: Single) -> Single {
        damage
    }
    fn heightmap_pos(&self, _kind: HeightmapType, pos: BlockPos) -> BlockPos {
        BlockPos { x: pos.x, y: 64, z: pos.z }
    }
    fn get_entity_by_id(&self, _id: i32) -> Option<i32> {
        None
    }
    fn is_player(&self, _entity: &i32) -> bool {
        false
    }
    fn default_hurt_server(
        &self,
        dragon: &EnderDragonEntity,
        _source: &DamageSource,
        _damage: Single,
    ) -> Hurt {
        Hurt { health: dragon.get_health(), velocity: dragon.base.velocity }
    }
    fn move_relative(&self, dragon: &EnderDragonEntity, amount: Single, direction: Vec3) -> Vec3 {
        ours(push(
            theirs(dragon.base.velocity),
            number(dragon.base.yaw),
            number(amount),
            theirs(direction),
        ))
    }
    fn move_entity(&self, dragon: &EnderDragonEntity, movement: Vec3) -> Moved<f64> {
        self.note("move".to_string());
        Moved {
            position: dragon.base.position.plus(movement),
            velocity: dragon.base.velocity,
            horizontal_collision: true,
            vertical_collision: false,
            result: Some(wide(movement.y)),
        }
    }
    fn process_flapping_movement(&self, _dragon: &EnderDragonEntity) {
        self.note("flap".to_string());
    }
    fn record_flight(&self, y: Double, yaw: Single) {
        self.note(format!("record {} {}", wide(y), number(yaw)));
    }
    fn apply_effects_from_blocks(&self, dragon: &EnderDragonEntity) -> Vec3 {
        self.note("blocks".to_string());
        dragon.base.velocity
    }
}

fn push(velocity: DVec3, yaw: f32, amount: f32, direction: DVec3) -> DVec3 {
    let scaled = direction * f64::from(amount);
    let (sin, cos) = (f64::from(yaw.to_radians().sin()), f64::from(yaw.to_radians().cos()));
    velocity
        + DVec3::new(
            scaled.x * cos - scaled.z * sin,
            scaled.y,
            scaled.z * cos + scaled.x * sin,
        )
}

/// The same flight, worked out on the processor.
struct Expected {
    position: DVec3,
    velocity: DVec3,
    yaw: f32,
    y_rot_a: f32,
    moved: f64,
}

fn steer_plainly(
    sky: &Sky,
    target: DVec3,
    position: DVec3,
    velocity: DVec3,
    yaw: f32,
    y_rot_a: f32,
    in_wall: bool,
) -> Expected {
    let (mut velocity, mut yaw, mut y_rot_a) = (velocity, yaw, y_rot_a);
    let dx = target.x - position.x;
    let mut dy = target.y - position.y;
    let dz = target.z - position.z;
    let dist_to_target = dx * dx + dy * dy + dz * dz;
    let max = f64::from(sky.fly_speed);
    let horizontal_dist = (dx * dx + dz * dz).sqrt();
    if horizontal_dist > 0.0 {
        dy = (dy / horizontal_dist).clamp(-max, max);
    }
    velocity += DVec3::new(0.0, dy * 0.01, 0.0);
    yaw = wrap_degrees(yaw);
    let aim = (target - position).normalize_or_zero();
    let yaw_radians = f64::from(yaw.to_radians());
    let heading =
        DVec3::new(yaw_radians.sin(), velocity.y, -yaw_radians.cos()).normalize_or_zero();
    let alignment = (((heading.dot(aim) as f32) + 0.5) / 1.5).max(0.0);
    if dx.abs() > 1.0e-5 || dz.abs() > 1.0e-5 {
        let desired = wrap_degrees(180.0 - (dx.atan2(dz) as f32).to_degrees() - yaw)
            .clamp(-50.0, 50.0);
        y_rot_a *= 0.8;
        y_rot_a += desired * sky.turn_speed;
        yaw += y_rot_a * 0.1;
    }
    let span = (2.0 / (dist_to_target + 1.0)) as f32;
    velocity = push(
        velocity,
        yaw,
        0.06 * (alignment * span + (1.0 - span)),
        DVec3::new(0.0, 0.0, -1.0),
    );
    let movement = if in_wall { velocity * 0.8 } else { velocity };
    let position = position + movement;
    let slide = 0.8 + 0.15 * (velocity.normalize_or_zero().dot(heading) + 1.0) / 2.0;
    velocity *= DVec3::new(slide, 0.91, slide);
    Expected { position, velocity, yaw, y_rot_a, moved: movement.y }
}

fn dragon_at(position: DVec3) -> EnderDragonEntity {
    let kind = EntityType {
        key: 41,
        dimensions: EntityDimensions { width: single(16.0), height: single(8.0) },
        max_health: MaxHealth::new(single(200.0)).expect("a health"),
    };
    let mut dragon = EnderDragonEntity::new(kind, 1, ours(position));
    dragon.set_phase(&mut Watched::new(&sky(None)), EnderDragonPhase::HoldingPattern);
    dragon
}

#[test]
fn steering_agrees_with_the_processor() {
    let cases = [
        (DVec3::new(30.0, 90.0, -12.5), DVec3::new(0.5, 80.0, 0.5), DVec3::new(0.1, 0.02, -0.3)),
        (DVec3::new(0.5, 95.0, 0.5), DVec3::new(0.5, 80.0, 0.5), DVec3::ZERO),
        (DVec3::new(0.5, 80.0, 0.5), DVec3::new(0.5, 80.0, 0.5), DVec3::new(0.0, -0.4, 0.0)),
        (DVec3::new(-200.0, 10.0, 77.0), DVec3::new(3.25, 100.0, 9.75), DVec3::new(-1.0, 0.5, 1.0)),
        (DVec3::new(1.0e-6, 70.0, 0.0), DVec3::new(0.0, 80.0, 0.0), DVec3::new(0.3, 0.0, 0.1)),
    ];
    for (target, position, velocity) in cases {
        for yaw in [0.0_f32, 123.75, -400.5, 179.9] {
            for in_wall in [false, true] {
                let sky = sky(Some(target));
                let mut dragon = dragon_at(position);
                dragon.base.velocity = ours(velocity);
                dragon.base.yaw = single(yaw);
                dragon.y_rot_a = single(1.75);
                dragon.in_wall = in_wall;
                let result =
                    dragon.steer_towards_phase_target(
                        &mut Watched::new(&sky),
                        EnderDragonPhase::HoldingPattern,
                    );

                let expected =
                    steer_plainly(&sky, target, position, velocity, yaw, 1.75, in_wall);
                assert_eq!(theirs(dragon.base.position), expected.position);
                assert_eq!(theirs(dragon.base.velocity), expected.velocity);
                assert_eq!(number(dragon.base.yaw), expected.yaw);
                assert_eq!(number(dragon.y_rot_a), expected.y_rot_a);
                assert_eq!(result, Some(expected.moved));
            }
        }
    }
}

#[test]
fn steering_leaves_the_rest_alone() {
    let sky = sky(Some(DVec3::new(40.0, 90.0, 3.0)));
    let mut dragon = dragon_at(DVec3::new(1.0, 80.0, 3.0));
    dragon.sitting_damage_received = single(2.5);
    dragon.dragon_death_time = 4;
    dragon.base.pitch = single(12.0);
    let part = dragon.sub_entities()[5];
    dragon.steer_towards_phase_target(&mut Watched::new(&sky), EnderDragonPhase::HoldingPattern);
    assert_eq!(number(dragon.get_health()), 200.0);
    assert_eq!(number(dragon.sitting_damage_received), 2.5);
    assert_eq!(number(dragon.base.pitch), 12.0);
    assert_eq!(dragon.dragon_death_time(), 4);
    assert_eq!(dragon.synced_phase(), 0);
    assert_eq!(theirs(dragon.sub_entities()[5].position), theirs(part.position));
}

#[test]
fn without_a_target_the_dragon_stays_put() {
    let sky = sky(None);
    let mut dragon = dragon_at(DVec3::new(1.0, 2.0, 3.0));
    dragon.base.yaw = single(400.0);
    let result = dragon
        .steer_towards_phase_target(&mut Watched::new(&sky), EnderDragonPhase::HoldingPattern);
    assert_eq!(result, None);
    assert_eq!(number(dragon.base.yaw), 400.0);
    assert!(sky.log.borrow().is_empty());
}

#[test]
fn exactly_one_switch_is_chased() {
    let mut sky = sky(None);
    sky.hand_off = vec![
        (EnderDragonPhase::HoldingPattern, EnderDragonPhase::LandingApproach),
        (EnderDragonPhase::LandingApproach, EnderDragonPhase::Landing),
        (EnderDragonPhase::Landing, EnderDragonPhase::Takeoff),
    ];
    let mut dragon = dragon_at(DVec3::ZERO);
    assert_eq!(dragon.tick_phase(&mut Watched::new(&sky)), EnderDragonPhase::Landing);
    assert_eq!(*sky.log.borrow(), ["tick 0", "end 0", "begin 2", "tick 2", "end 2", "begin 3"]);
    assert_eq!(dragon.synced_phase(), 3);

    let quiet = Sky { hand_off: Vec::new(), log: RefCell::new(Vec::new()), ..sky };
    assert_eq!(dragon.tick_phase(&mut Watched::new(&quiet)), EnderDragonPhase::Landing);
    assert_eq!(*quiet.log.borrow(), ["tick 3"]);
}

#[test]
fn a_phase_may_turn_the_dragon() {
    let mut dragon = dragon_at(DVec3::ZERO);
    dragon.set_phase(&mut Watched::new(&sky(None)), EnderDragonPhase::SittingScanning);
    assert_eq!(dragon.tick_phase(&mut Watched::new(&sky(None))), EnderDragonPhase::SittingScanning);
    assert_eq!(number(dragon.base.yaw), 33.0);
    assert_eq!(number(dragon.y_rot_a), 4.0);
    assert_eq!(number(dragon.base.pitch), -7.0);
    assert_eq!(theirs(dragon.base.velocity), DVec3::new(0.0, 0.5, 0.0));
    assert_eq!(theirs(dragon.base.position), DVec3::new(1.0, 2.0, 3.0));
    assert_eq!(number(dragon.get_health()), 200.0);
}

#[test]
fn clipping_terrain_shortens_the_way_alone() {
    let target = DVec3::new(40.0, 90.0, 3.0);
    let mut moved = Vec::new();
    let mut velocities = Vec::new();
    let mut turns = Vec::new();
    for in_wall in [false, true] {
        let sky = sky(Some(target));
        let mut dragon = dragon_at(DVec3::new(0.0, 80.0, 0.0));
        dragon.base.velocity = ours(DVec3::new(0.5, 0.25, -1.0));
        dragon.in_wall = in_wall;
        dragon.steer_towards_phase_target(
            &mut Watched::new(&sky),
            EnderDragonPhase::HoldingPattern,
        );
        moved.push(theirs(dragon.base.position) - DVec3::new(0.0, 80.0, 0.0));
        velocities.push(theirs(dragon.base.velocity));
        turns.push((number(dragon.base.yaw), number(dragon.y_rot_a)));
        assert!(dragon.base.horizontal_collision);
        assert!(!dragon.base.vertical_collision);
    }
    assert!((moved[0] * 0.8 - moved[1]).length() < 1.0e-9);
    assert_eq!(velocities[0], velocities[1]);
    assert_eq!(turns[0], turns[1]);
}

#[test]
fn outside_of_a_world_nothing_happens() {
    let mut dragon = dragon_at(DVec3::ZERO);
    dragon.base.yaw = single(450.0);
    let nowhere: Option<&mut Watched<Sky>> = None;
    assert_eq!(dragon.ai_step(nowhere), None);
    assert_eq!(number(dragon.base.yaw), 450.0);
    assert!(dragon.ai_step(Some(&mut Watched::new(&sky(Some(DVec3::ONE))))).is_some());
}

#[test]
fn a_step_runs_in_order() {
    let sky = sky(Some(DVec3::new(50.0, 80.0, 0.0)));
    let mut dragon = dragon_at(DVec3::new(0.0, 80.0, 0.0));
    dragon.base.yaw = single(450.0);
    dragon.flap_time = single(0.25);
    dragon.base.velocity = ours(DVec3::new(0.3, 0.5, 0.4));
    assert!(dragon.dragon_ai_step(&mut Watched::new(&sky)).is_some());

    assert_eq!(*sky.log.borrow(), ["flap", "record 80 90", "tick 0", "move", "blocks"]);
    assert_eq!(number(dragon.o_flap_time), 0.25);
    let speed = (0.2 / (0.3_f64.hypot(0.4) as f32 * 10.0 + 1.0)) * 2.0_f32.powf(0.5);
    assert_eq!(number(dragon.flap_time), 0.25 + speed);
    assert_eq!(number(dragon.body_yaw), number(dragon.base.yaw));
}

#[test]
fn wings_keep_their_own_pace_on_the_perch_and_drag_in_walls() {
    let mut perched = dragon_at(DVec3::ZERO);
    perched.set_phase(&mut Watched::new(&sky(None)), EnderDragonPhase::SittingScanning);
    perched.tick_flap_time(single(3.0), single(1.0));
    assert_eq!(number(perched.flap_time), 0.1);

    let mut clipped = dragon_at(DVec3::ZERO);
    clipped.in_wall = true;
    clipped.tick_flap_time(single(1.0), single(2.0));
    assert_eq!(number(clipped.flap_time), (0.2_f32 / 11.0) * 2.0 * 0.5);
}

#[test]
fn a_dead_dragon_takes_no_step() {
    let sky = sky(Some(DVec3::new(50.0, 80.0, 0.0)));
    let mut dragon = dragon_at(DVec3::ZERO);
    dragon.set_health(single(0.0));
    dragon.base.yaw = single(450.0);
    assert_eq!(dragon.dragon_ai_step(&mut Watched::new(&sky)), None);
    assert_eq!(number(dragon.base.yaw), 450.0);
    assert_eq!(*sky.log.borrow(), ["flap"]);
}

#[test]
fn without_ai_the_wings_are_held_mid_beat() {
    let sky = sky(Some(DVec3::new(50.0, 80.0, 0.0)));
    let mut dragon = dragon_at(DVec3::ZERO);
    dragon.set_mob_flags(1);
    dragon.base.yaw = single(450.0);
    assert_eq!(dragon.dragon_ai_step(&mut Watched::new(&sky)), None);
    assert_eq!(number(dragon.flap_time), 0.5);
    assert_eq!(number(dragon.base.yaw), 90.0);
    assert_eq!(*sky.log.borrow(), ["flap"]);
}

#[test]
fn the_last_flight_heads_for_the_podium() {
    let sky = sky(None);
    let mut dragon = dragon_at(DVec3::new(60.0, 90.0, 0.5));
    dragon.set_phase(&mut Watched::new(&sky), EnderDragonPhase::Dying);
    assert!(dragon.dragon_ai_step(&mut Watched::new(&sky)).is_some());
    let fast = Sky { fly_speed: 3.0, ..sky };
    let expected = steer_plainly(
        &fast,
        DVec3::new(0.5, 64.0, 0.5),
        DVec3::new(60.0, 90.0, 0.5),
        DVec3::ZERO,
        0.0,
        0.0,
        false,
    );
    assert_eq!(theirs(dragon.base.position), expected.position);
    assert_eq!(theirs(dragon.base.velocity), expected.velocity);
    assert_eq!(number(dragon.get_health()), 1.0);
}

#[test]
fn the_wings_sweep_down_once_a_beat() {
    assert_eq!(TAU_BITS, std::f32::consts::TAU.to_bits());
    let sky = sky(None);
    let mut dragon = dragon_at(DVec3::ZERO);
    let mut sweeps = 0;
    for step in 0..100 {
        dragon.o_flap_time = single(step as f32 * 0.05);
        dragon.flap_time = single((step + 1) as f32 * 0.05);
        let flap = (number(dragon.flap_time) * std::f32::consts::TAU).cos();
        let previous = (number(dragon.o_flap_time) * std::f32::consts::TAU).cos();
        assert_eq!(dragon.is_flapping(&mut Watched::new(&sky)), previous <= -0.3 && flap >= -0.3);
        sweeps += usize::from(dragon.is_flapping(&mut Watched::new(&sky)));
    }
    assert_eq!(sweeps, 5);
}

#[test]
fn a_speed_is_a_number_from_zero_up() {
    assert!(FlySpeed::new(single(-0.5)).is_none());
    assert!(FlySpeed::new(single(f32::NAN)).is_none());
    assert_eq!(number(FlySpeed::new(single(1.5)).expect("a speed").get()), 1.5);
}

use std::cell::RefCell;

use ender_dragon::block::BlockPos;
use ender_dragon::damage::DamageSource;
use ender_dragon::death::DragonDeathPhase;
use ender_dragon::dragon::EnderDragonEntity;
use ender_dragon::float::double::Double;
use ender_dragon::float::single::Single;
use ender_dragon::host::{DragonHost, FlySpeed, HeightmapType, Hurt, Moved, PhaseTick, Watched};
use ender_dragon::part::{EntityDimensions, EntityType, MaxHealth};
use ender_dragon::phase::EnderDragonPhase;
use ender_dragon::save::{NbtTag, SaveKey};
use ender_dragon::vector::Vec3;

/// Total ticks the death animation runs.
const DEATH_DURATION: i32 = 200;

fn single(x: f32) -> Single {
    Single::from_bits(x.to_bits())
}

fn double(x: f64) -> Double {
    Double::from_bits(x.to_bits())
}

fn number(x: Single) -> f32 {
    f32::from_bits(x.to_bits())
}

fn wide(x: Double) -> f64 {
    f64::from_bits(x.to_bits())
}

fn vec3(x: f64, y: f64, z: f64) -> Vec3 {
    Vec3::new(double(x), double(y), double(z))
}

/// A world with a podium on flat ground.
struct PodiumWorld {
    ground: i32,
    asked: RefCell<Vec<(HeightmapType, BlockPos)>>,
}

fn podium_world() -> PodiumWorld {
    PodiumWorld { ground: 64, asked: RefCell::new(Vec::new()) }
}

impl DragonHost for PodiumWorld {
    type Entity = i32;
    type MoveResult = ();

    fn wrap_degrees(&self, degrees: Single) -> Single {
        degrees
    }
    fn to_radians(&self, degrees: Single) -> Single {
        degrees
    }
    fn to_degrees(&self, radians: Single) -> Single {
        radians
    }
    fn sine(&self, _angle: Double) -> Double {
        Double::whole(0)
    }
    fn cosine(&self, _angle: Double) -> Double {
        Double::whole(1)
    }
    fn cosine_single(&self, _angle: Single) -> Single {
        Single::whole(1)
    }
    fn arc_tangent(&self, _dx: Double, _dz: Double) -> Double {
        Double::whole(0)
    }
    fn hypotenuse(&self, _x: Double, _z: Double) -> Double {
        double(0.0)
    }
    fn power_of_two(&self, _exponent: Single) -> Single {
        single(1.0)
    }
    fn fly_speed(&self, _phase: EnderDragonPhase) -> FlySpeed {
        FlySpeed::new(single(0.6)).expect("a speed")
    }
    fn fly_target_location(&self, _phase: EnderDragonPhase) -> Option<Vec3> {
        None
    }
    fn turn_speed(&self, _dragon: &EnderDragonEntity, _phase: EnderDragonPhase) -> Single {
        single(0.0)
    }
    fn do_server_tick(
        &self,
        dragon: &EnderDragonEntity,
        _phase: EnderDragonPhase,
    ) -> PhaseTick {
        PhaseTick::unchanged(dragon)
    }
    fn begin(&self, _dragon: &EnderDragonEntity, _phase: EnderDragonPhase) {}
    fn end(&self, _dragon: &EnderDragonEntity, _phase: EnderDragonPhase) {}
    fn on_hurt(&self, _phase: EnderDragonPhase, _source: &DamageSource, damage: Single) -> Single {
        damage
    }
    fn heightmap_pos(&self, kind: HeightmapType, pos: BlockPos) -> BlockPos {
        self.asked.borrow_mut().push((kind, pos));
        BlockPos { x: pos.x, y: self.ground, z: pos.z }
    }
    fn get_entity_by_id(&self, id: i32) -> Option<i32> {
        if id == 9 {
            None
        } else {
            Some(id)
        }
    }
    fn is_player(&self, entity: &i32) -> bool {
        *entity == 7
    }
    fn default_hurt_server(
        &self,
        dragon: &EnderDragonEntity,
        _source: &DamageSource,
        _damage: Single,
    ) -> Hurt {
        Hurt { health: dragon.get_health(), velocity: dragon.base.velocity }
    }
    fn move_relative(
        &self,
        dragon: &EnderDragonEntity,
        _amount: Single,
        _direction: Vec3,
    ) -> Vec3 {
        dragon.base.velocity
    }
    fn move_entity(&self, dragon: &EnderDragonEntity, movement: Vec3) -> Moved<()> {
        Moved {
            position: dragon.base.position.plus(movement),
            velocity: dragon.base.velocity,
            horizontal_collision: false,
            vertical_collision: false,
            result: Some(()),
        }
    }
    fn process_flapping_movement(&self, _dragon: &EnderDragonEntity) {}
    fn record_flight(&self, _y: Double, _yaw: Single) {}
    fn apply_effects_from_blocks(&self, dragon: &EnderDragonEntity) -> Vec3 {
        dragon.base.velocity
    }
}

/// The point the death phase steers at: the podium's surface, centered in its block.
fn podium_target(world: &PodiumWorld) -> Vec3 {
    vec3(0.5, f64::from(world.ground), 0.5)
}

fn dragon_at(position: Vec3) -> EnderDragonEntity {
    let kind = EntityType {
        key: 41,
        dimensions: EntityDimensions { width: single(16.0), height: single(8.0) },
        max_health: MaxHealth::new(single(200.0)).expect("a health"),
    };
    EnderDragonEntity::new(kind, 1, position)
}

/// A dragon already in its death phase.
fn dying_dragon_at(position: Vec3) -> EnderDragonEntity {
    let mut dragon = dragon_at(position);
    dragon.set_phase(&mut Watched::new(&podium_world()), EnderDragonPhase::Dying);
    dragon
}

fn tick_death_phase(dragon: &mut EnderDragonEntity, world: &PodiumWorld) {
    let phase = dragon.phase_manager().current_phase();
    dragon.run_phase(&mut Watched::new(world), phase);
}

fn dragon_in_chunk() -> EnderDragonEntity {
    dragon_at(vec3(0.5, 80.0, 0.5))
}

/// Ticks the animation, and counts the times experience dropped.
fn tick_death_times(dragon: &mut EnderDragonEntity, ticks: i32, mob_drops: bool) -> usize {
    let mut drops = 0;
    for _ in 0..ticks {
        let tick = dragon.tick_death(mob_drops);
        drops += usize::from(tick.trickle) + usize::from(tick.last);
    }
    drops
}

#[test]
fn a_killing_blow_starts_the_death_flight() {
    let mut dragon = dragon_at(vec3(0.0, 0.0, 0.0));
    let world = podium_world();
    dragon.set_phase(&mut Watched::new(&world), EnderDragonPhase::HoldingPattern);
    dragon.set_health(single(0.0));

    dragon.handle_killing_blow(&mut Watched::new(&world));

    // Clawing back the single point is what keeps the dragon from being dead, so it
    // keeps steering instead of falling over where it was hit.
    assert_eq!(number(dragon.get_health()), 1.0);
    assert!(!dragon.is_dead_or_dying());
    assert_eq!(dragon.phase_manager().current_phase(), EnderDragonPhase::Dying);
}

#[test]
fn a_perched_dragon_is_not_dislodged_by_the_killing_blow() {
    let mut dragon = dragon_at(vec3(0.0, 0.0, 0.0));
    // Hovering counts as sitting, and a sitting dragon simply dies.
    dragon.set_health(single(0.0));

    dragon.handle_killing_blow(&mut Watched::new(&podium_world()));

    assert_eq!(number(dragon.get_health()), 0.0);
    assert!(dragon.is_dead_or_dying());
    assert_eq!(dragon.phase_manager().current_phase(), EnderDragonPhase::Hovering);
}

#[test]
fn the_death_phase_keeps_the_dragon_alive_until_it_reaches_the_podium() {
    let world = podium_world();
    let target = podium_target(&world);

    // 100 blocks out: far enough to still be flying, close enough not to be written
    // off as unreachable.
    let mut flying = dying_dragon_at(target.plus(vec3(0.0, 100.0, 0.0)));
    tick_death_phase(&mut flying, &world);

    assert_eq!(number(flying.get_health()), 1.0, "the dragon died before arriving");
    assert!(!flying.is_dead_or_dying());

    let mut arrived = dying_dragon_at(target.plus(vec3(0.0, 2.0, 0.0)));
    tick_death_phase(&mut arrived, &world);

    // Health hitting zero is what finally lets the death animation start counting.
    assert_eq!(number(arrived.get_health()), 0.0);
    assert!(arrived.is_dead_or_dying());
}

#[test]
fn the_death_phase_gives_up_on_walls_and_on_the_horizon() {
    let target = podium_target(&podium_world());
    let away = target.plus(vec3(0.0, 100.0, 0.0));

    let mut blocked = dying_dragon_at(away);
    blocked.base.horizontal_collision = true;
    tick_death_phase(&mut blocked, &podium_world());
    assert!(blocked.is_dead_or_dying());

    let mut capped = dying_dragon_at(away);
    capped.base.vertical_collision = true;
    tick_death_phase(&mut capped, &podium_world());
    assert!(capped.is_dead_or_dying());

    let mut lost = dying_dragon_at(target.plus(vec3(151.0, 0.0, 0.0)));
    tick_death_phase(&mut lost, &podium_world());
    assert!(lost.is_dead_or_dying());

    // both ends are part of the flight
    for distance in [10.0, 150.0] {
        let mut edge = dying_dragon_at(target.plus(vec3(distance, 0.0, 0.0)));
        tick_death_phase(&mut edge, &podium_world());
        assert!(!edge.is_dead_or_dying());
    }
}

#[test]
fn the_podium_is_looked_up_once() {
    let world = podium_world();
    let mut dragon = dying_dragon_at(vec3(0.5, 164.0, 0.5));
    dragon.set_fight_origin(BlockPos { x: 4, y: 0, z: -4 });
    tick_death_phase(&mut dragon, &world);
    tick_death_phase(&mut dragon, &world);

    assert_eq!(
        *world.asked.borrow(),
        [(HeightmapType::MotionBlocking, BlockPos { x: 4, y: 0, z: -4 })]
    );
    let target = dragon.phase_manager().death.fly_target_location().expect("a latched target");
    assert_eq!((wide(target.x), wide(target.y), wide(target.z)), (4.5, 64.0, -3.5));

    // a new flight looks again
    dragon.set_phase(&mut Watched::new(&world), EnderDragonPhase::HoldingPattern);
    dragon.set_phase(&mut Watched::new(&world), EnderDragonPhase::Dying);
    assert!(dragon.phase_manager().death.fly_target_location().is_none());
}

#[test]
fn the_death_phase_flies_faster_than_any_other() {
    let dragon = dying_dragon_at(vec3(0.0, 0.0, 0.0));

    assert_eq!(number(dragon.phase_manager().death.fly_speed()), 3.0);
    assert_eq!(DragonDeathPhase::default().phase(), EnderDragonPhase::Dying);
}

#[test]
fn the_death_sequence_drifts_upward_and_removes_the_dragon() {
    let mut dragon = dragon_in_chunk();
    let start = dragon.base.position;

    for tick in 1..DEATH_DURATION {
        assert!(!dragon.tick_death(true).removed);
        assert!(!dragon.base.removed, "removed early on tick {tick}");
    }
    assert!(dragon.tick_death(true).removed);

    assert_eq!(dragon.dragon_death_time(), DEATH_DURATION);
    assert!(dragon.base.removed);

    // 0.1 a tick, as a widened number, so the total is fractionally above 20.
    let drift = wide(dragon.base.position.y) - wide(start.y);
    assert!(
        (drift - 20.0).abs() < 1.0e-3,
        "the dragon drifted {drift} blocks"
    );
}

#[test]
fn the_parts_drift_with_the_dying_dragon() {
    let mut dragon = dragon_in_chunk();
    let before: Vec<f64> =
        dragon.sub_entities().iter().map(|part| wide(part.position.y)).collect();

    dragon.tick_death(true);

    for (part, start) in dragon.sub_entities().iter().zip(before) {
        let drift = wide(part.position.y) - start;
        assert!(
            (drift - f64::from(0.1_f32)).abs() < 1.0e-9,
            "a part drifted {drift} blocks"
        );
    }
}

#[test]
fn experience_only_drops_with_mob_drops_enabled() {
    let mut dragon = dragon_in_chunk();

    // Nothing is awarded until the animation is most of the way through.
    assert_eq!(tick_death_times(&mut dragon, 150, true), 0);

    assert!(
        tick_death_times(&mut dragon, 10, true) > 0,
        "no experience trickled out past tick 150"
    );
    // one every five ticks, and the rest with the last
    assert_eq!(tick_death_times(&mut dragon, 40, true), 9);
}

#[test]
fn no_experience_drops_with_the_gamerule_off() {
    let mut dragon = dragon_in_chunk();

    let drops = tick_death_times(&mut dragon, DEATH_DURATION, false);

    assert!(dragon.base.removed);
    assert_eq!(drops, 0);
}

#[test]
fn kill_removes_the_dragon_without_the_animation() {
    let mut dragon = dragon_at(vec3(0.0, 0.0, 0.0));

    dragon.kill();

    assert!(dragon.base.removed);
    assert_eq!(dragon.dragon_death_time(), 0);
}

#[test]
fn the_death_timer_round_trips_through_nbt_mid_animation() {
    let mut dragon = dragon_in_chunk();
    tick_death_times(&mut dragon, 37, true);

    let mut death_time = None;
    for (key, tag) in dragon.save_additional() {
        if key.name() == "DragonDeathTime" {
            assert_eq!(key, SaveKey::DragonDeathTime);
            if let NbtTag::Int(time) = tag {
                death_time = Some(time);
            }
        }
    }
    assert_eq!(death_time, Some(37));

    let mut restored = dragon_at(vec3(0.0, 0.0, 0.0));
    restored.load_additional(&mut Watched::new(&podium_world()), None, death_time, None);

    assert_eq!(restored.dragon_death_time(), 37);
}

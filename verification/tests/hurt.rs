use std::cell::RefCell;

use ender_dragon::block::BlockPos;
use ender_dragon::damage::DamageSource;
use ender_dragon::dragon::EnderDragonEntity;
use ender_dragon::float::double::Double;
use ender_dragon::float::single::Single;
use ender_dragon::host::{DragonHost, FlySpeed, HeightmapType, Hurt, Moved, PhaseTick, Watched};
use ender_dragon::part::{EntityDimensions, EntityType, MaxHealth};
use ender_dragon::phase::EnderDragonPhase;
use ender_dragon::vector::Vec3;

fn single(x: f32) -> Single {
    Single::from_bits(x.to_bits())
}

fn number(x: Single) -> f32 {
    f32::from_bits(x.to_bits())
}

/// A world in which entity 7 is the only player, and damage is taken at its word.
struct Arena {
    dealt: RefCell<Vec<f32>>,
    told: RefCell<Vec<(&'static str, EnderDragonPhase)>>,
    softened: f32,
}

fn arena() -> Arena {
    Arena { dealt: RefCell::new(Vec::new()), told: RefCell::new(Vec::new()), softened: 1.0 }
}

impl DragonHost for Arena {
    type Entity = i32;
    type MoveResult = ();

    fn wrap_degrees(&self, degrees: Single) -> Single {
        degrees
    }
    fn to_radians(&self, degrees: Single) -> Single {
        degrees
    }
    fn to_degrees(&self, radians: Single) -> Single {
        radians
    }
    fn sine(&self, _angle: Double) -> Double {
        Double::whole(0)
    }
    fn cosine(&self, _angle: Double) -> Double {
        Double::whole(1)
    }
    fn cosine_single(&self, _angle: Single) -> Single {
        Single::whole(1)
    }
    fn arc_tangent(&self, _dx: Double, _dz: Double) -> Double {
        Double::whole(0)
    }
    fn hypotenuse(&self, _x: Double, _z: Double) -> Double {
        Double::whole(0)
    }
    fn power_of_two(&self, _exponent: Single) -> Single {
        single(1.0)
    }
    fn fly_speed(&self, _phase: EnderDragonPhase) -> FlySpeed {
        FlySpeed::new(single(0.6)).expect("a speed")
    }
    fn fly_target_location(&self, _phase: EnderDragonPhase) -> Option<Vec3> {
        None
    }
    fn turn_speed(&self, _dragon: &EnderDragonEntity, _phase: EnderDragonPhase) -> Single {
        single(0.0)
    }
    fn do_server_tick(
        &self,
        dragon: &EnderDragonEntity,
        _phase: EnderDragonPhase,
    ) -> PhaseTick {
        PhaseTick::unchanged(dragon)
    }
    fn begin(&self, _dragon: &EnderDragonEntity, phase: EnderDragonPhase) {
        self.told.borrow_mut().push(("begin", phase));
    }
    fn end(&self, _dragon: &EnderDragonEntity, phase: EnderDragonPhase) {
        self.told.borrow_mut().push(("end", phase));
    }
    fn on_hurt(&self, _phase: EnderDragonPhase, _source: &DamageSource, damage: Single) -> Single {
        damage.times(single(self.softened))
    }
    fn heightmap_pos(&self, _kind: HeightmapType, pos: BlockPos) -> BlockPos {
        pos
    }
    fn get_entity_by_id(&self, id: i32) -> Option<i32> {
        if id == 9 {
            None
        } else {
            Some(id)
        }
    }
    fn is_player(&self, entity: &i32) -> bool {
        *entity == 7
    }
    fn default_hurt_server(
        &self,
        dragon: &EnderDragonEntity,
        _source: &DamageSource,
        damage: Single,
    ) -> Hurt {
        self.dealt.borrow_mut().push(number(damage));
        let push = Vec3::new(Double::whole(0), Double::whole(1), Double::whole(0));
        Hurt {
            health: dragon.get_health().minus(damage),
            velocity: dragon.base.velocity.plus(push),
        }
    }
    fn move_relative(
        &self,
        dragon: &EnderDragonEntity,
        _amount: Single,
        _direction: Vec3,
    ) -> Vec3 {
        dragon.base.velocity
    }
    fn move_entity(&self, dragon: &EnderDragonEntity, _movement: Vec3) -> Moved<()> {
        Moved {
            position: dragon.base.position,
            velocity: dragon.base.velocity,
            horizontal_collision: false,
            vertical_collision: false,
            result: None,
        }
    }
    fn process_flapping_movement(&self, _dragon: &EnderDragonEntity) {}
    fn record_flight(&self, _y: Double, _yaw: Single) {}
    fn apply_effects_from_blocks(&self, dragon: &EnderDragonEntity) -> Vec3 {
        dragon.base.velocity
    }
}

fn dragon_in(phase: EnderDragonPhase) -> EnderDragonEntity {
    let kind = EntityType {
        key: 41,
        dimensions: EntityDimensions { width: single(16.0), height: single(8.0) },
        max_health: MaxHealth::new(single(200.0)).expect("a health"),
    };
    let mut dragon = EnderDragonEntity::new(kind, 100, Vec3::zero());
    dragon.set_phase(&mut Watched::new(&arena()), phase);
    dragon
}

const PLAYER: DamageSource =
    DamageSource { always_hurts_ender_dragons: false, causing_entity_id: Some(7) };
const STRAY: DamageSource =
    DamageSource { always_hurts_ender_dragons: false, causing_entity_id: Some(8) };
const GONE: DamageSource =
    DamageSource { always_hurts_ender_dragons: false, causing_entity_id: Some(9) };
const FIRE: DamageSource =
    DamageSource { always_hurts_ender_dragons: false, causing_entity_id: None };
const BLAST: DamageSource =
    DamageSource { always_hurts_ender_dragons: true, causing_entity_id: None };

#[test]
fn the_head_takes_full_damage_and_the_rest_a_quarter_and_a_point() {
    let world = arena();
    let mut dragon = dragon_in(EnderDragonPhase::HoldingPattern);
    let head = dragon.head();
    assert!(dragon.hurt_part(&mut Watched::new(&world), head, &PLAYER, single(10.0)));
    assert_eq!(number(dragon.get_health()), 190.0);
    assert_eq!(dragon.base.velocity.y.to_bits(), 1.0_f64.to_bits());

    let wing = dragon.sub_entities()[7];
    assert!(dragon.hurt_part(&mut Watched::new(&world), wing, &PLAYER, single(10.0)));
    assert_eq!(number(dragon.get_health()), 186.5);

    // below a point, the flat part is the damage itself
    assert!(dragon.hurt_part(&mut Watched::new(&world), wing, &PLAYER, single(0.5)));
    assert_eq!(*world.dealt.borrow(), [10.0, 3.5, 0.625]);
}

#[test]
fn a_hit_elsewhere_deals_no_more_than_to_the_head() {
    for damage in [4.0_f32 / 3.0, 1.5, 2.0, 7.25, 1.0e30, f32::MAX, f32::INFINITY] {
        let elsewhere = number(EnderDragonEntity::dealt_damage(single(damage), false));
        let head = number(EnderDragonEntity::dealt_damage(single(damage), true));
        assert_eq!(head, damage);
        assert!(elsewhere <= head);
        assert_eq!(elsewhere, damage / 4.0 + damage.min(1.0));
    }
}

#[test]
fn the_head_pays_off_from_two_points_on() {
    for damage in [2.0_f32, 2.5, 8.0, 1.0e10, f32::MAX] {
        let elsewhere = number(EnderDragonEntity::dealt_damage(single(damage), false));
        assert_eq!(elsewhere, damage / 4.0 + 1.0);
        assert!(elsewhere < damage);
    }
    for damage in [0.01_f32, 0.125, 0.7, 1.0] {
        let elsewhere = number(EnderDragonEntity::dealt_damage(single(damage), false));
        assert_eq!(elsewhere, 1.25 * damage);
        assert!(elsewhere > damage);
    }
    let mut last = f32::NEG_INFINITY;
    for damage in [f32::NEG_INFINITY, -3.0, -0.0, 0.3, 0.9, 1.0, 1.2, 1.9, 7.0, f32::INFINITY] {
        let elsewhere = number(EnderDragonEntity::dealt_damage(single(damage), false));
        assert!(last <= elsewhere);
        last = elsewhere;
    }
}

#[test]
fn a_direct_hit_goes_to_the_body() {
    let world = arena();
    let mut dragon = dragon_in(EnderDragonPhase::HoldingPattern);
    assert!(dragon.hurt_server(&mut Watched::new(&world), &BLAST, single(20.0)));
    assert_eq!(number(dragon.get_health()), 194.0);
}

#[test]
fn only_players_and_blasts_hurt_the_dragon() {
    let world = arena();
    let mut dragon = dragon_in(EnderDragonPhase::HoldingPattern);
    let head = dragon.head();
    // the hit counts as landed all the same
    assert!(dragon.hurt_part(&mut Watched::new(&world), head, &STRAY, single(10.0)));
    assert!(dragon.hurt_part(&mut Watched::new(&world), head, &FIRE, single(10.0)));
    assert!(dragon.hurt_part(&mut Watched::new(&world), head, &GONE, single(10.0)));
    assert_eq!(number(dragon.get_health()), 200.0);
    assert!(world.dealt.borrow().is_empty());

    assert!(dragon.hurt_part(&mut Watched::new(&world), head, &BLAST, single(10.0)));
    assert!(dragon.hurt_part(&mut Watched::new(&world), head, &PLAYER, single(10.0)));
    assert_eq!(number(dragon.get_health()), 180.0);
}

#[test]
fn tiny_damage_is_dropped() {
    let world = arena();
    let mut dragon = dragon_in(EnderDragonPhase::HoldingPattern);
    let head = dragon.head();
    assert!(!dragon.hurt_part(&mut Watched::new(&world), head, &PLAYER, single(0.0099)));
    assert!(dragon.hurt_part(&mut Watched::new(&world), head, &PLAYER, single(0.01)));

    // what the phase takes off counts
    let shielded = Arena { softened: 0.0, ..arena() };
    assert!(!dragon.hurt_part(&mut Watched::new(&shielded), head, &PLAYER, single(50.0)));
}

#[test]
fn a_dying_dragon_cannot_be_hurt() {
    let world = arena();
    let mut dragon = dragon_in(EnderDragonPhase::Dying);
    let head = dragon.head();
    assert!(!dragon.hurt_part(&mut Watched::new(&world), head, &PLAYER, single(50.0)));
    assert_eq!(number(dragon.get_health()), 200.0);
}

#[test]
fn a_fatal_hit_in_flight_starts_the_last_flight() {
    let world = arena();
    let mut dragon = dragon_in(EnderDragonPhase::StrafePlayer);
    let head = dragon.head();
    assert!(dragon.hurt_part(&mut Watched::new(&world), head, &PLAYER, single(500.0)));
    assert_eq!(number(dragon.get_health()), 1.0);
    assert_eq!(dragon.phase_manager().current_phase(), EnderDragonPhase::Dying);
    assert_eq!(dragon.synced_phase(), 9);
    assert_eq!(*world.told.borrow(), [("end", EnderDragonPhase::StrafePlayer)]);
    // the shared path is gone through once
    assert_eq!(*world.dealt.borrow(), [500.0]);
}

#[test]
fn a_fatal_hit_on_the_perch_just_kills() {
    let world = arena();
    let mut dragon = dragon_in(EnderDragonPhase::SittingScanning);
    dragon.set_health(single(20.0));
    let head = dragon.head();
    assert!(dragon.hurt_part(&mut Watched::new(&world), head, &PLAYER, single(500.0)));
    assert!(dragon.is_dead_or_dying());
    assert_eq!(dragon.phase_manager().current_phase(), EnderDragonPhase::SittingScanning);
    assert_eq!(number(dragon.sitting_damage_received), 20.0);
}

#[test]
fn a_quarter_of_its_health_drives_a_perched_dragon_off() {
    let world = arena();
    let mut dragon = dragon_in(EnderDragonPhase::SittingFlaming);
    let head = dragon.head();
    assert!(dragon.hurt_part(&mut Watched::new(&world), head, &PLAYER, single(50.0)));
    assert_eq!(number(dragon.sitting_damage_received), 50.0);
    assert_eq!(dragon.phase_manager().current_phase(), EnderDragonPhase::SittingFlaming);

    assert!(dragon.hurt_part(&mut Watched::new(&world), head, &PLAYER, single(0.5)));
    assert_eq!(number(dragon.sitting_damage_received), 0.0);
    assert_eq!(dragon.phase_manager().current_phase(), EnderDragonPhase::Takeoff);
    assert_eq!(number(dragon.get_health()), 149.5);
    assert_eq!(
        *world.told.borrow(),
        [("end", EnderDragonPhase::SittingFlaming), ("begin", EnderDragonPhase::Takeoff)]
    );

    // in flight nothing is counted
    assert!(dragon.hurt_part(&mut Watched::new(&world), head, &PLAYER, single(5.0)));
    assert_eq!(number(dragon.sitting_damage_received), 0.0);
}

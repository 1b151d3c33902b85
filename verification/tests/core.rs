use ender_dragon::block::BlockPos;
use ender_dragon::damage::DamageSource;
use ender_dragon::dragon::{EnderDragonEntity, EntityBaseLoad, SoundEvent, SoundSource};
use ender_dragon::float::double::Double;
use ender_dragon::float::single::Single;
use ender_dragon::host::{
    DragonHost, FlySpeed, HeightmapType, Hurt, Moved, PhaseTick, Watched,
};
use ender_dragon::part::{EntityDimensions, EntityType, MaxHealth};
use ender_dragon::phase::EnderDragonPhase;
use ender_dragon::save::NbtTag;
use ender_dragon::vector::Vec3;

const ENDER_DRAGON: u32 = 41;

fn single(x: f32) -> Single {
    Single::from_bits(x.to_bits())
}

fn double(x: f64) -> Double {
    Double::from_bits(x.to_bits())
}

fn number(x: Single) -> f32 {
    f32::from_bits(x.to_bits())
}

fn wide(x: Double) -> f64 {
    f64::from_bits(x.to_bits())
}

/// A world with nothing in it.
struct Nowhere;

impl DragonHost for Nowhere {
    type Entity = i32;
    type MoveResult = ();

    fn wrap_degrees(&self, degrees: Single) -> Single {
        degrees
    }
    fn to_radians(&self, degrees: Single) -> Single {
        degrees
    }
    fn to_degrees(&self, radians: Single) -> Single {
        radians
    }
    fn sine(&self, _angle: Double) -> Double {
        Double::whole(0)
    }
    fn cosine(&self, _angle: Double) -> Double {
        Double::whole(1)
    }
    fn cosine_single(&self, _angle: Single) -> Single {
        Single::whole(1)
    }
    fn arc_tangent(&self, _dx: Double, _dz: Double) -> Double {
        Double::whole(0)
    }
    fn hypotenuse(&self, _x: Double, _z: Double) -> Double {
        Double::whole(0)
    }
    fn power_of_two(&self, _exponent: Single) -> Single {
        Single::whole(1)
    }
    fn fly_speed(&self, _phase: EnderDragonPhase) -> FlySpeed {
        FlySpeed::new(Single::whole(1)).expect("a speed")
    }
    fn fly_target_location(&self, _phase: EnderDragonPhase) -> Option<Vec3> {
        None
    }
    fn turn_speed(&self, _dragon: &EnderDragonEntity, _phase: EnderDragonPhase) -> Single {
        single(0.0)
    }
    fn do_server_tick(
        &self,
        dragon: &EnderDragonEntity,
        _phase: EnderDragonPhase,
    ) -> PhaseTick {
        PhaseTick::unchanged(dragon)
    }
    fn begin(&self, _dragon: &EnderDragonEntity, _phase: EnderDragonPhase) {}
    fn end(&self, _dragon: &EnderDragonEntity, _phase: EnderDragonPhase) {}
    fn on_hurt(&self, _phase: EnderDragonPhase, _source: &DamageSource, damage: Single) -> Single {
        damage
    }
    fn heightmap_pos(&self, _kind: HeightmapType, pos: BlockPos) -> BlockPos {
        pos
    }
    fn get_entity_by_id(&self, id: i32) -> Option<i32> {
        if id == 9 {
            None
        } else {
            Some(id)
        }
    }
    fn is_player(&self, entity: &i32) -> bool {
        *entity == 7
    }
    fn default_hurt_server(
        &self,
        dragon: &EnderDragonEntity,
        _source: &DamageSource,
        _damage: Single,
    ) -> Hurt {
        Hurt { health: dragon.get_health(), velocity: dragon.base.velocity }
    }
    fn move_relative(
        &self,
        dragon: &EnderDragonEntity,
        _amount: Single,
        _direction: Vec3,
    ) -> Vec3 {
        dragon.base.velocity
    }
    fn move_entity(&self, dragon: &EnderDragonEntity, movement: Vec3) -> Moved<()> {
        Moved {
            position: dragon.base.position.plus(movement),
            velocity: dragon.base.velocity,
            horizontal_collision: false,
            vertical_collision: false,
            result: Some(()),
        }
    }
    fn process_flapping_movement(&self, _dragon: &EnderDragonEntity) {}
    fn record_flight(&self, _y: Double, _yaw: Single) {}
    fn apply_effects_from_blocks(&self, dragon: &EnderDragonEntity) -> Vec3 {
        dragon.base.velocity
    }
}

fn dragon_type() -> EntityType {
    EntityType {
        key: ENDER_DRAGON,
        dimensions: EntityDimensions { width: single(16.0), height: single(8.0) },
        max_health: MaxHealth::new(single(200.0)).expect("a health"),
    }
}

fn test_dragon() -> EnderDragonEntity {
    EnderDragonEntity::new(dragon_type(), 1000, Vec3::zero())
}

fn saved_int(dragon: &EnderDragonEntity, name: &str) -> Option<i32> {
    for (key, tag) in dragon.save_additional() {
        if key.name() == name {
            return match tag {
                NbtTag::Int(n) => Some(n),
                NbtTag::Float(_) => None,
            };
        }
    }
    None
}

fn saved_float(dragon: &EnderDragonEntity, name: &str) -> Option<f32> {
    for (key, tag) in dragon.save_additional() {
        if key.name() == name {
            return match tag {
                NbtTag::Float(x) => Some(number(x)),
                NbtTag::Int(_) => None,
            };
        }
    }
    None
}

#[test]
fn spawns_at_full_vanilla_health() {
    let dragon = test_dragon();

    assert_eq!(number(dragon.get_max_health()), 200.0);
    assert_eq!(number(dragon.get_health()), 200.0);
}

#[test]
fn owns_eight_parts_on_the_ids_after_its_own() {
    let dragon = test_dragon();
    let parts = dragon.sub_entities();

    assert_eq!(parts.len(), 8);
    for (index, part) in parts.iter().enumerate() {
        assert_eq!(part.id, dragon.base.id + index as i32 + 1);
    }
    assert_eq!(dragon.parts().len(), 8);
    assert_eq!(dragon.head().id, dragon.base.id + 1);
}

#[test]
fn parts_carry_their_own_vanilla_hitboxes() {
    let dragon = test_dragon();

    // head 1x1, neck 3x3, body 5x3, tail x3 2x2, wing x2 4x2.
    let expected: [(f64, f64); 8] = [
        (1.0, 1.0),
        (3.0, 3.0),
        (5.0, 3.0),
        (2.0, 2.0),
        (2.0, 2.0),
        (2.0, 2.0),
        (4.0, 2.0),
        (4.0, 2.0),
    ];

    for (part, (width, height)) in dragon.sub_entities().iter().zip(expected) {
        let box_ = part.bounding_box();
        assert!((wide(box_.max.x) - wide(box_.min.x) - width).abs() < 1.0e-9);
        assert!((wide(box_.max.y) - wide(box_.min.y) - height).abs() < 1.0e-9);
        assert!((wide(box_.max.z) - wide(box_.min.z) - width).abs() < 1.0e-9);
    }
}

#[test]
fn parts_are_pickable_but_the_dragon_body_is_not() {
    let dragon = test_dragon();

    // Arrows must hit the parts, not the 16x8 box the dragon itself reports.
    assert!(!dragon.is_pickable());
    for part in dragon.sub_entities() {
        assert!(part.is_pickable());
    }
}

#[test]
fn parts_report_the_dragons_entity_type() {
    let dragon = test_dragon();

    for part in dragon.sub_entities() {
        assert_eq!(part.entity_type.key, ENDER_DRAGON);
    }
}

#[test]
fn parts_are_named_in_vanilla_order() {
    let dragon = test_dragon();
    let names = dragon
        .sub_entities()
        .iter()
        .map(|part| part.part_name())
        .collect::<Vec<_>>();

    assert_eq!(
        names,
        [
            "head", "neck", "body", "tail", "tail", "tail", "wing", "wing"
        ]
    );
}

#[test]
fn nbt_round_trips_the_death_timer() {
    let dragon = test_dragon();
    assert_eq!(dragon.dragon_death_time(), 0);

    assert_eq!(saved_int(&dragon, "DragonDeathTime"), Some(0));
    assert_eq!(saved_float(&dragon, "sitting_damage_received"), Some(0.0));
    assert_eq!(saved_int(&dragon, "DragonPhase"), Some(10));
}

#[test]
fn the_dragon_passes_through_terrain() {
    let dragon = test_dragon();

    assert!(dragon.base.no_physics);
}

#[test]
fn a_save_is_taken_over_value_by_value() {
    let mut saved = test_dragon();
    saved.set_phase(&mut Watched::new(&Nowhere), EnderDragonPhase::ChargingPlayer);
    saved.sitting_damage_received = single(12.5);
    saved.dragon_death_time = 3;

    let mut loaded = test_dragon();
    loaded.load_additional(
        &mut Watched::new(&Nowhere),
        saved_int(&saved, "DragonPhase"),
        saved_int(&saved, "DragonDeathTime"),
        saved_float(&saved, "sitting_damage_received").map(single),
    );
    assert_eq!(loaded.phase_manager().current_phase(), EnderDragonPhase::ChargingPlayer);
    assert_eq!(loaded.synced_phase(), 8);
    assert_eq!(loaded.dragon_death_time(), 3);
    assert_eq!(number(loaded.sitting_damage_received), 12.5);

    let mut untouched = test_dragon();
    untouched.load_additional(&mut Watched::new(&Nowhere), None, None, None);
    assert_eq!(untouched.phase_manager().current_phase(), EnderDragonPhase::Hovering);
    assert_eq!(untouched.dragon_death_time(), 0);

    // A number that no phase goes by is the holding pattern.
    untouched.load_additional(&mut Watched::new(&Nowhere), Some(99), None, None);
    assert_eq!(untouched.phase_manager().current_phase(), EnderDragonPhase::HoldingPattern);
}

#[test]
fn every_phase_is_found_by_its_number() {
    for id in 0..11 {
        assert_eq!(EnderDragonPhase::by_id(id).id(), id);
    }
    for id in [-1, 11, i32::MAX, i32::MIN] {
        assert_eq!(EnderDragonPhase::by_id(id), EnderDragonPhase::HoldingPattern);
    }
    let sitting: Vec<i32> =
        (0..11).filter(|&id| EnderDragonPhase::by_id(id).is_sitting()).collect();
    assert_eq!(sitting, [5, 6, 7, 10]);
}

#[test]
fn a_saved_base_is_kept() {
    let at = Vec3::new(double(1.5), double(70.0), double(-8.25));
    let dragon = EnderDragonEntity::from_saved(
        dragon_type(),
        EntityBaseLoad {
            id: 7,
            position: at,
            velocity: Vec3::new(double(0.25), double(0.0), double(0.0)),
            yaw: single(90.0),
            pitch: single(-10.0),
        },
    );
    assert_eq!(dragon.base.id, 7);
    assert_eq!(wide(dragon.base.position.x), 1.5);
    assert_eq!(wide(dragon.base.velocity.x), 0.25);
    assert_eq!(number(dragon.base.yaw), 90.0);
    assert_eq!(number(dragon.base.pitch), -10.0);
    assert!(dragon.base.no_physics);
    assert_eq!(wide(dragon.sub_entities()[7].position.z), -8.25);
    assert_eq!(number(dragon.get_health()), 200.0);
}

#[test]
fn health_comes_from_the_entity_type() {
    let frail = EntityType {
        max_health: MaxHealth::new(single(35.5)).expect("a health"),
        ..dragon_type()
    };
    let mut dragon = EnderDragonEntity::new(frail, 1, Vec3::zero());
    assert_eq!(number(dragon.get_max_health()), 35.5);
    assert_eq!(number(dragon.get_health()), 35.5);
    dragon.set_health(single(200.0));
    assert_eq!(number(dragon.get_health()), 35.5);
    assert!(MaxHealth::new(single(-1.0)).is_none());
    assert!(MaxHealth::new(single(f32::NAN)).is_none());
}

#[test]
fn publishing_a_phase_does_not_switch_it() {
    let mut dragon = test_dragon();
    dragon.set_mob_flags(4);
    dragon.set_synced_phase(EnderDragonPhase::Landing);
    assert_eq!(dragon.synced_phase(), 3);
    assert_eq!(dragon.phase_manager().current_phase(), EnderDragonPhase::Hovering);
    assert_eq!(number(dragon.get_health()), 200.0);
    assert_eq!(dragon.mob_flags(), 4);
}

#[test]
fn switching_phases_tells_clients() {
    let mut dragon = test_dragon();
    assert_eq!(dragon.synced_phase(), 10);
    dragon.set_phase(&mut Watched::new(&Nowhere), EnderDragonPhase::Landing);
    assert_eq!(dragon.synced_phase(), 3);
    assert_eq!(dragon.phase_manager().current_phase(), EnderDragonPhase::Landing);
}

#[test]
fn health_is_held_within_bounds() {
    let mut dragon = test_dragon();
    dragon.set_health(single(-5.0));
    assert_eq!(number(dragon.get_health()), 0.0);
    assert!(dragon.is_dead_or_dying());
    dragon.set_health(single(1000.0));
    assert_eq!(number(dragon.get_health()), 200.0);
    assert!(!dragon.is_dead_or_dying());
}

#[test]
fn the_dragon_keeps_to_its_manners() {
    let mut dragon = test_dragon();
    assert_eq!(dragon.entity_type().key, ENDER_DRAGON);
    assert_eq!(number(dragon.dimensions_for_pose().width), 16.0);
    assert_eq!(number(dragon.get_scale()), 1.0);
    assert_eq!(number(dragon.sound_volume()), 5.0);
    assert_eq!(dragon.sound_source(), SoundSource::Hostile);
    assert_eq!(dragon.hurt_sound(), Some(SoundEvent::EnderDragonHurt));
    assert_eq!(dragon.ambient_sound(), Some(SoundEvent::EnderDragonAmbient));
    assert!(!dragon.add_mob_effect());
    assert!(dragon.can_attack(true));
    assert!(!dragon.can_attack(false));
    assert_eq!(dragon.alive_crystals(), None);
    dragon.set_mob_flags(6);
    assert_eq!(dragon.mob_flags(), 6);
    assert!(!dragon.is_no_ai());
    dragon.set_mob_flags(-1);
    assert!(dragon.is_no_ai());
    dragon.set_fight_origin(BlockPos { x: 3, y: 4, z: 5 });
    assert_eq!(dragon.fight_origin(), BlockPos { x: 3, y: 4, z: 5 });
}

#[test]
fn glow_follows_effects_and_tag() {
    let mut dragon = test_dragon();
    dragon.update_dirty_mob_effect_entity_data(Some(true), false);
    assert!(dragon.glowing);
    dragon.update_dirty_mob_effect_entity_data(None, false);
    assert!(dragon.glowing);
    dragon.update_dirty_mob_effect_entity_data(Some(false), true);
    assert!(dragon.glowing);
    dragon.update_dirty_mob_effect_entity_data(Some(false), false);
    assert!(!dragon.glowing);
}

#[test]
fn the_flight_graph_is_built_once() {
    let dragon = test_dragon();
    let mut graph: Option<Vec<u32>> = None;
    let first = dragon.find_closest_node(
        &mut graph,
        || vec![5, 6, 7],
        |nodes, position, crystals| {
            assert_eq!(wide(position.y), 0.0);
            assert_eq!(crystals, None);
            nodes.len()
        },
    );
    assert_eq!(first, 3);
    let path = dragon.find_path(
        &mut graph,
        || panic!("the graph is built a second time"),
        1,
        2,
        Some("end"),
        |nodes, start, end, last, _| Some((nodes[0], start, end, last)),
    );
    assert_eq!(path, Some((5, 1, 2, Some("end"))));
}

#[test]
fn block_centers_are_half_a_block_in() {
    for pos in [
        BlockPos { x: 0, y: 64, z: -1 },
        BlockPos { x: i32::MIN, y: i32::MAX, z: 12 },
    ] {
        let center = pos.get_bottom_center();
        assert_eq!(wide(center.x), f64::from(pos.x) + 0.5);
        assert_eq!(wide(center.y), f64::from(pos.y));
        assert_eq!(wide(center.z), f64::from(pos.z) + 0.5);
        assert_eq!(ender_dragon::block::end_podium_location(pos), pos);
    }
}

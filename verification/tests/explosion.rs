use ender_dragon::explosion::{BlockInteraction, Explosion, ExplosionDamage};
use ender_dragon::float::double::Double;
use ender_dragon::float::single::Single;
use ender_dragon::vector::Vec3;

fn double(x: f64) -> Double {
    Double::from_bits(x.to_bits())
}

/// Somewhere central, well clear of the world floor.
fn center() -> Vec3 {
    Vec3::new(double(8.5), double(80.0), double(8.5))
}

fn explosion_at(center: Vec3, radius: f32, interaction: BlockInteraction) -> Explosion {
    Explosion {
        center,
        radius: Single::from_bits(radius.to_bits()),
        interaction,
        caused_by_player: false,
    }
}

#[test]
fn a_blast_with_no_source_reports_as_environmental() {
    let explosion = explosion_at(center(), 4.0, BlockInteraction::Keep);

    assert_eq!(explosion.damage_source().damage_type, ExplosionDamage::Explosion);
    let position = explosion.damage_source().source_position.expect("the blast has a center");
    assert_eq!(position.x.to_bits(), 8.5_f64.to_bits());
    assert_eq!(position.y.to_bits(), 80.0_f64.to_bits());
    assert_eq!(position.z.to_bits(), 8.5_f64.to_bits());
}

#[test]
fn a_players_blast_reports_as_a_players() {
    let explosion = Explosion {
        caused_by_player: true,
        ..explosion_at(center(), 4.0, BlockInteraction::Keep)
    };
    assert_eq!(explosion.damage_source().damage_type, ExplosionDamage::PlayerExplosion);
}

#[test]
fn only_a_block_breaking_blast_counts_as_large() {
    assert!(explosion_at(center(), 1.0, BlockInteraction::Destroy).is_small());
    assert!(!explosion_at(center(), 4.0, BlockInteraction::Destroy).is_small());
    // A big blast that leaves blocks alone still uses the small effect.
    assert!(explosion_at(center(), 4.0, BlockInteraction::Keep).is_small());
    assert!(!explosion_at(center(), 2.0, BlockInteraction::TriggerBlock).is_small());
}

#[test]
fn block_interaction_reports_what_it_touches() {
    assert!(!BlockInteraction::Keep.interacts_with_blocks());
    assert!(BlockInteraction::TriggerBlock.interacts_with_blocks());
    assert!(!BlockInteraction::TriggerBlock.affects_blocklike_entities());
    assert!(BlockInteraction::DestroyWithDecay.affects_blocklike_entities());
}

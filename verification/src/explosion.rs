//! What an explosion does to the blocks around it, and how it reports itself.

use crate::float::model;
use crate::float::model::Format;
use crate::float::single::Single;
use crate::vector::Vec3;
use vstd::prelude::*;

verus! {

/// What an explosion does to the blocks it reaches.
#[derive(Clone, Copy, Debug, PartialEq, Eq, Structural)]
pub enum BlockInteraction {
    /// Leaves them alone.
    Keep,
    /// Breaks them, and every one drops.
    Destroy,
    /// Breaks them, and some of the drops are lost.
    DestroyWithDecay,
    /// Sets them off without breaking them.
    TriggerBlock,
}

impl BlockInteraction {
    /// Whether the explosion does anything to blocks.
    pub fn interacts_with_blocks(self) -> (r: bool)
        ensures
            r <==> self != BlockInteraction::Keep,
    {
        match self {
            BlockInteraction::Keep => false,
            _ => true,
        }
    }

    /// Whether the explosion breaks entities that stand in for blocks.
    pub fn affects_blocklike_entities(self) -> (r: bool)
        ensures
            r <==> self == BlockInteraction::Destroy || self == BlockInteraction::DestroyWithDecay,
    {
        match self {
            BlockInteraction::Destroy | BlockInteraction::DestroyWithDecay => true,
            BlockInteraction::Keep | BlockInteraction::TriggerBlock => false,
        }
    }
}

/// The damage type an explosion deals.
#[derive(Clone, Copy, Debug, PartialEq, Eq, Structural)]
pub enum ExplosionDamage {
    Explosion,
    PlayerExplosion,
}

/// The damage an explosion deals, and where it comes from.
#[derive(Clone, Copy, Debug)]
pub struct ExplosionDamageSource {
    pub damage_type: ExplosionDamage,
    pub source_position: Option<Vec3>,
}

/// An explosion.
#[derive(Clone, Copy, Debug)]
pub struct Explosion {
    pub center: Vec3,
    pub radius: Single,
    pub interaction: BlockInteraction,
    /// Whether the blast traces back to a player.
    pub caused_by_player: bool,
}

impl Explosion {
    /// Whether the explosion shows the small effect: it reaches less than two
    /// blocks, or it leaves blocks alone.
    pub fn is_small(&self) -> (r: bool)
        ensures
            r <==> self.radius@.less(model::whole(Format::Binary32, 2)) || self.interaction
                == BlockInteraction::Keep,
    {
        self.radius.less(Single::whole(2)) || !self.interaction.interacts_with_blocks()
    }

    /// What the explosion hurts with. Only a blast that traces back to a player
    /// reports as a player's.
    pub fn damage_source(&self) -> (r: ExplosionDamageSource)
        ensures
            r.damage_type == ExplosionDamage::PlayerExplosion <==> self.caused_by_player,
            r.source_position == Some(self.center),
    {
        ExplosionDamageSource {
            damage_type: if self.caused_by_player {
                ExplosionDamage::PlayerExplosion
            } else {
                ExplosionDamage::Explosion
            },
            source_position: Some(self.center),
        }
    }
}

} // verus!

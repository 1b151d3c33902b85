//! What a save keeps of the dragon: the phase, the death timer and the damage
//! taken while perched.

use crate::dragon;
use crate::dragon::{DragonView, EnderDragonEntity};
use crate::float::single::Single;
use crate::host;
use crate::host::{DragonHost, HostCall, Watched};
use crate::phase::EnderDragonPhase;
use vstd::prelude::*;

verus! {

/// The names the dragon saves under.
#[derive(Clone, Copy, Debug, PartialEq, Eq, Structural)]
pub enum SaveKey {
    DragonPhase,
    DragonDeathTime,
    SittingDamageReceived,
}

impl SaveKey {
    /// The name as it stands in a save.
    pub open spec fn label(self) -> Seq<char> {
        match self {
            SaveKey::DragonPhase => "DragonPhase"@,
            SaveKey::DragonDeathTime => "DragonDeathTime"@,
            SaveKey::SittingDamageReceived => "sitting_damage_received"@,
        }
    }

    /// The name as it stands in a save.
    pub fn name(self) -> (r: &'static str)
        ensures
            r@ == self.label(),
    {
        match self {
            SaveKey::DragonPhase => "DragonPhase",
            SaveKey::DragonDeathTime => "DragonDeathTime",
            SaveKey::SittingDamageReceived => "sitting_damage_received",
        }
    }
}

/// A value in a save.
#[derive(Clone, Copy, Debug)]
pub enum NbtTag {
    Int(i32),
    Float(Single),
}

/// What a dragon puts into a save.
pub open spec fn saved(dragon: EnderDragonEntity) -> Seq<(SaveKey, NbtTag)> {
    seq![
        (SaveKey::DragonPhase, NbtTag::Int(dragon@.phase.number() as i32)),
        (SaveKey::DragonDeathTime, NbtTag::Int(dragon.dragon_death_time)),
        (SaveKey::SittingDamageReceived, NbtTag::Float(dragon.sitting_damage_received)),
    ]
}

impl DragonView {
    /// The dragon once it has taken over what a save holds. What the save does
    /// not hold stays as it is.
    pub open spec fn loaded(
        self,
        phase: Option<i32>,
        death_time: Option<i32>,
        received: Option<Single>,
    ) -> DragonView {
        let switched = match phase {
            Some(id) => self.with_phase(EnderDragonPhase::numbered(id as int)),
            None => self,
        };
        DragonView {
            death_time: match death_time {
                Some(time) => time as int,
                None => self.death_time,
            },
            sitting_damage: match received {
                Some(damage) => damage@,
                None => self.sitting_damage,
            },
            ..switched
        }
    }
}

/// What the phases are told when the dragon takes over what a save holds.
pub open spec fn load_calls<H: DragonHost>(before: DragonView, phase: Option<i32>) -> Seq<
    HostCall<H>,
> {
    match phase {
        Some(id) => dragon::switch_calls(before, EnderDragonPhase::numbered(id as int)),
        None => Seq::empty(),
    }
}

impl EnderDragonEntity {
    /// The dragon's own values, by the names they are saved under.
    pub fn save_additional(&self) -> (r: Vec<(SaveKey, NbtTag)>)
        ensures
            r@ == saved(*self),
    {
        let mut nbt: Vec<(SaveKey, NbtTag)> = Vec::new();
        nbt.push((SaveKey::DragonPhase, NbtTag::Int(self.phase_manager.current_phase().id())));
        nbt.push((SaveKey::DragonDeathTime, NbtTag::Int(self.dragon_death_time())));
        nbt.push((SaveKey::SittingDamageReceived, NbtTag::Float(self.sitting_damage_received)));
        nbt
    }

    /// Takes over what a save holds under the dragon's names. What it does not
    /// hold, or holds as something else, stays as it is.
    pub fn load_additional<H: DragonHost>(
        &mut self,
        host: &mut Watched<H>,
        phase: Option<i32>,
        death_time: Option<i32>,
        received: Option<Single>,
    )
        ensures
            final(self)@ == old(self)@.loaded(phase, death_time, received),
            final(host).extends(*old(host), load_calls(old(self)@, phase)),
            old(self).wf() ==> final(self).wf(),
            old(self)@.in_sync() ==> final(self)@.in_sync(),
    {
        proof {
            host::lemma_uncalled(*host);
        }
        match phase {
            Some(id) => self.set_phase(host, EnderDragonPhase::by_id(id)),
            None => {},
        }
        match death_time {
            Some(time) => {
                self.dragon_death_time = time;
            },
            None => {},
        }
        match received {
            Some(damage) => {
                self.sitting_damage_received = damage;
            },
            None => {},
        }
    }
}

} // verus!

//! The dragon itself: what it is made of, how it is made, and how it dies.

use crate::block::BlockPos;
use crate::death::DragonDeathPhase;
use crate::float::double::Double;
use crate::float::model;
use crate::float::model::{Datum, Format};
use crate::float::single::Single;
use crate::host;
use crate::host::{DragonHost, HostCall, Watched};
use crate::part::{EnderDragonPart, EntityDimensions, EntityType, PartKind, PartView};
use crate::phase::EnderDragonPhase;
use crate::vector::{Vec3, VecView};
use vstd::prelude::*;

verus! {

/// The number of hitboxes.
pub const SUB_ENTITY_COUNT: usize = 8;

/// Where the head stands among the hitboxes.
pub const HEAD: usize = 0;

/// Where the body stands among the hitboxes.
pub const BODY: usize = 2;

/// How many ticks the death animation runs.
pub const DEATH_DURATION: i32 = 200;

/// Up to this tick of the animation no experience drops.
pub const EXPERIENCE_FREE_TICKS: i32 = 150;

/// Past that, experience drops every so many ticks.
pub const EXPERIENCE_PERIOD: i32 = 5;

/// What a sound counts as.
#[derive(Clone, Copy, Debug, PartialEq, Eq, Structural)]
pub enum SoundSource {
    Hostile,
}

/// The sounds of the dragon.
#[derive(Clone, Copy, Debug, PartialEq, Eq, Structural)]
pub enum SoundEvent {
    EnderDragonAmbient,
    EnderDragonHurt,
}

/// What every entity has.
#[derive(Clone, Copy, Debug)]
pub struct EntityBase {
    pub id: i32,
    pub position: Vec3,
    pub velocity: Vec3,
    pub yaw: Single,
    pub pitch: Single,
    /// Whether the entity passes through terrain.
    pub no_physics: bool,
    /// Whether the last move ran into a wall.
    pub horizontal_collision: bool,
    /// Whether the last move ran into a floor or a ceiling.
    pub vertical_collision: bool,
    pub removed: bool,
}

/// What a save holds of an entity's base.
#[derive(Clone, Copy, Debug)]
pub struct EntityBaseLoad {
    pub id: i32,
    pub position: Vec3,
    pub velocity: Vec3,
    pub yaw: Single,
    pub pitch: Single,
}

/// What an entity's base amounts to.
pub struct BaseView {
    pub id: int,
    pub position: VecView,
    pub velocity: VecView,
    pub yaw: Datum,
    pub pitch: Datum,
    pub no_physics: bool,
    pub horizontal_collision: bool,
    pub vertical_collision: bool,
    pub removed: bool,
}

impl View for EntityBase {
    type V = BaseView;

    open spec fn view(&self) -> BaseView {
        BaseView {
            id: self.id as int,
            position: self.position@,
            velocity: self.velocity@,
            yaw: self.yaw@,
            pitch: self.pitch@,
            no_physics: self.no_physics,
            horizontal_collision: self.horizontal_collision,
            vertical_collision: self.vertical_collision,
            removed: self.removed,
        }
    }
}

impl EntityBase {
    /// An entity at rest.
    pub fn new(id: i32, position: Vec3) -> (r: EntityBase)
        ensures
            r@ == (BaseView {
                id: id as int,
                position: position@,
                velocity: VecView::zero(),
                yaw: model::whole(Format::Binary32, 0),
                pitch: model::whole(Format::Binary32, 0),
                no_physics: false,
                horizontal_collision: false,
                vertical_collision: false,
                removed: false,
            }),
            r.position == position,
    {
        EntityBase {
            id,
            position,
            velocity: Vec3::zero(),
            yaw: Single::whole(0),
            pitch: Single::whole(0),
            no_physics: false,
            horizontal_collision: false,
            vertical_collision: false,
            removed: false,
        }
    }

    /// An entity as a save has it.
    pub fn from_load(load: EntityBaseLoad) -> (r: EntityBase)
        ensures
            r == (EntityBase {
                id: load.id,
                position: load.position,
                velocity: load.velocity,
                yaw: load.yaw,
                pitch: load.pitch,
                no_physics: false,
                horizontal_collision: false,
                vertical_collision: false,
                removed: false,
            }),
    {
        EntityBase {
            id: load.id,
            position: load.position,
            velocity: load.velocity,
            yaw: load.yaw,
            pitch: load.pitch,
            no_physics: false,
            horizontal_collision: false,
            vertical_collision: false,
            removed: false,
        }
    }
}

/// The phase machine: which phase is active, and what the dying phase remembers.
#[derive(Clone, Copy, Debug)]
pub struct EnderDragonPhaseManager {
    pub current: EnderDragonPhase,
    pub death: DragonDeathPhase,
}

impl EnderDragonPhaseManager {
    /// The machine as a dragon is made with it.
    pub fn new() -> (r: EnderDragonPhaseManager)
        ensures
            r.current == EnderDragonPhase::Hovering,
            r.death@ is None,
    {
        EnderDragonPhaseManager {
            current: EnderDragonPhase::Hovering,
            death: DragonDeathPhase::new(),
        }
    }

    /// The active phase.
    pub fn current_phase(&self) -> (r: EnderDragonPhase)
        ensures
            r == self.current,
    {
        self.current
    }
}

/// The Ender Dragon.
#[derive(Debug)]
pub struct EnderDragonEntity {
    pub base: EntityBase,
    pub entity_type: EntityType,
    pub health: Single,
    pub max_health: Single,
    pub mob_flags: i8,
    /// Whether watching clients see the dragon glow.
    pub glowing: bool,
    /// The phase as watching clients know it.
    pub synced_phase: i32,
    /// In order: head, neck, body, three of tail, two of wing.
    pub sub_entities: Vec<EnderDragonPart>,
    pub dragon_death_time: i32,
    pub sitting_damage_received: Single,
    pub phase_manager: EnderDragonPhaseManager,
    pub flap_time: Single,
    pub o_flap_time: Single,
    /// The accumulated turn rate.
    pub y_rot_a: Single,
    pub body_yaw: Single,
    /// Whether the dragon clips terrain.
    pub in_wall: bool,
    /// The arena center this dragon belongs to. The fight sets it; it is not saved.
    pub fight_origin: BlockPos,
}

/// What the dragon amounts to.
pub struct DragonView {
    pub base: BaseView,
    pub entity_type: EntityType,
    pub health: Datum,
    pub max_health: Datum,
    pub mob_flags: int,
    pub glowing: bool,
    pub synced_phase: int,
    pub parts: Seq<PartView>,
    pub death_time: int,
    pub sitting_damage: Datum,
    pub phase: EnderDragonPhase,
    pub death_target: Option<VecView>,
    pub flap_time: Datum,
    pub o_flap_time: Datum,
    pub y_rot_a: Datum,
    pub body_yaw: Datum,
    pub in_wall: bool,
    pub fight_origin: BlockPos,
}

impl View for EnderDragonEntity {
    type V = DragonView;

    open spec fn view(&self) -> DragonView {
        DragonView {
            base: self.base@,
            entity_type: self.entity_type,
            health: self.health@,
            max_health: self.max_health@,
            mob_flags: self.mob_flags as int,
            glowing: self.glowing,
            synced_phase: self.synced_phase as int,
            parts: self.sub_entities@.map_values(|part: EnderDragonPart| part@),
            death_time: self.dragon_death_time as int,
            sitting_damage: self.sitting_damage_received@,
            phase: self.phase_manager.current,
            death_target: self.phase_manager.death@,
            flap_time: self.flap_time@,
            o_flap_time: self.o_flap_time@,
            y_rot_a: self.y_rot_a@,
            body_yaw: self.body_yaw@,
            in_wall: self.in_wall,
            fight_origin: self.fight_origin,
        }
    }
}

/// The kinds of the hitboxes, in order.
pub open spec fn part_order() -> Seq<PartKind> {
    seq![
        PartKind::Head,
        PartKind::Neck,
        PartKind::Body,
        PartKind::Tail,
        PartKind::Tail,
        PartKind::Tail,
        PartKind::Wing,
        PartKind::Wing,
    ]
}

/// The hitboxes a dragon is made with: all where the dragon is, under the ids
/// that follow its own.
pub open spec fn fresh_parts(entity_type: EntityType, id: int, position: VecView) -> Seq<PartView> {
    Seq::new(
        part_order().len(),
        |i: int|
            PartView {
                entity_type,
                id: id + i + 1,
                kind: part_order()[i],
                width: model::whole(Format::Binary32, part_order()[i].size().0),
                height: model::whole(Format::Binary32, part_order()[i].size().1),
                position,
            },
    )
}

/// Zero, in 32 bits.
pub open spec fn nought() -> Datum {
    model::whole(Format::Binary32, 0)
}

/// A dragon that was just made on a base.
pub open spec fn fresh(entity_type: EntityType, base: BaseView) -> DragonView {
    DragonView {
        base: BaseView { no_physics: true, ..base },
        entity_type,
        health: entity_type.max_health.number(),
        max_health: entity_type.max_health.number(),
        mob_flags: 0,
        glowing: false,
        synced_phase: EnderDragonPhase::Hovering.number(),
        parts: fresh_parts(entity_type, base.id, base.position),
        death_time: 0,
        sitting_damage: nought(),
        phase: EnderDragonPhase::Hovering,
        death_target: None,
        flap_time: nought(),
        o_flap_time: nought(),
        y_rot_a: nought(),
        body_yaw: nought(),
        in_wall: false,
        fight_origin: (BlockPos { x: 0, y: 0, z: 0 }),
    }
}

/// How far one tick of the death animation lifts the dragon.
pub open spec fn drift() -> VecView {
    VecView {
        x: model::whole(Format::Binary64, 0),
        y: model::widened(model::ratio(Format::Binary32, 1, 10)),
        z: model::whole(Format::Binary64, 0),
    }
}

impl DragonView {
    /// What holds of every dragon: its hitboxes bear the ids after its own, and its
    /// health has an upper end.
    pub open spec fn wf(self) -> bool {
        &&& self.parts.len() == SUB_ENTITY_COUNT
        &&& forall|i: int|
            #![trigger self.parts[i]]
            0 <= i < SUB_ENTITY_COUNT ==> self.parts[i].id == self.base.id + i + 1
                && self.parts[i].kind == part_order()[i]
        &&& nought().at_most(self.max_health)
    }

    /// Whether clients know the phase the dragon is in.
    pub open spec fn in_sync(self) -> bool {
        self.synced_phase == self.phase.number()
    }

    /// Whether the dragon's health is used up.
    pub open spec fn dead(self) -> bool {
        self.health.at_most(nought())
    }

    /// The dragon with its health set, within bounds.
    pub open spec fn with_health(self, health: Datum) -> DragonView {
        DragonView { health: health.held(nought(), self.max_health), ..self }
    }

    /// The dragon switched to a phase. Entering the phase it is in already does
    /// nothing; entering the dying phase forgets an earlier target.
    pub open spec fn with_phase(self, phase: EnderDragonPhase) -> DragonView {
        if phase == self.phase {
            self
        } else {
            DragonView {
                phase,
                synced_phase: phase.number(),
                death_target: if phase == EnderDragonPhase::Dying {
                    None
                } else {
                    self.death_target
                },
                ..self
            }
        }
    }

    /// The dragon after a blow that may have used up its health: one in flight
    /// gets a last point and flies off to die.
    pub open spec fn struck(self) -> DragonView {
        if self.dead() && !self.phase.sits() {
            self.with_health(model::whole(Format::Binary32, 1)).with_phase(EnderDragonPhase::Dying)
        } else {
            self
        }
    }

    /// The dragon after one tick of the death animation.
    pub open spec fn death_ticked(self) -> DragonView {
        DragonView {
            base: BaseView {
                position: self.base.position.plus(drift()),
                removed: self.base.removed || self.death_time + 1 == DEATH_DURATION,
                ..self.base
            },
            death_time: self.death_time + 1,
            parts: self.parts.map_values(
                |part: PartView| PartView { position: part.position.plus(drift()), ..part },
            ),
            ..self
        }
    }
}

/// What the phases are told when the dragon switches to one: the old one that it
/// ends, and the new one that it begins. The dying phase is the dragon's own.
pub open spec fn switch_calls<H: DragonHost>(before: DragonView, phase: EnderDragonPhase) -> Seq<
    HostCall<H>,
> {
    let ending = if before.phase == EnderDragonPhase::Dying {
        Seq::empty()
    } else {
        seq![HostCall::End { dragon: before, phase: before.phase }]
    };
    let beginning = if phase == EnderDragonPhase::Dying {
        Seq::empty()
    } else {
        seq![HostCall::Begin { dragon: before.with_phase(phase), phase }]
    };
    if phase == before.phase {
        Seq::empty()
    } else {
        ending + beginning
    }
}

/// What the phases are told after a blow that may have used up the dragon's health.
pub open spec fn struck_calls<H: DragonHost>(before: DragonView) -> Seq<HostCall<H>> {
    if before.dead() && !before.phase.sits() {
        switch_calls(
            before.with_health(model::whole(Format::Binary32, 1)),
            EnderDragonPhase::Dying,
        )
    } else {
        Seq::empty()
    }
}

/// What one tick of the death animation asks of the world.
#[derive(Clone, Copy, Debug, PartialEq, Eq, Structural)]
pub struct DeathTick {
    /// Drop a little of the experience.
    pub trickle: bool,
    /// Drop the rest of it.
    pub last: bool,
    /// The dragon is gone.
    pub removed: bool,
}

/// What a tick of the death animation asks for, by its number.
pub open spec fn death_tick(time: int, mob_drops: bool) -> DeathTick {
    DeathTick {
        trickle: mob_drops && time > EXPERIENCE_FREE_TICKS && time % EXPERIENCE_PERIOD as int == 0,
        last: mob_drops && time == DEATH_DURATION,
        removed: time == DEATH_DURATION,
    }
}

impl EnderDragonEntity {
    /// What holds of every dragon.
    pub open spec fn wf(self) -> bool {
        self@.wf()
    }

    /// Makes a dragon. Its id must leave room for the ids of its hitboxes.
    #[must_use]
    pub fn new(entity_type: EntityType, id: i32, position: Vec3) -> (r: EnderDragonEntity)
        requires
            id <= i32::MAX - SUB_ENTITY_COUNT,
        ensures
            r.wf(),
            r@.in_sync(),
            r@ == fresh(
                entity_type,
                BaseView {
                    id: id as int,
                    position: position@,
                    velocity: VecView::zero(),
                    yaw: nought(),
                    pitch: nought(),
                    no_physics: false,
                    horizontal_collision: false,
                    vertical_collision: false,
                    removed: false,
                },
            ),
    {
        EnderDragonEntity::new_with_base(EntityBase::new(id, position), entity_type)
    }

    /// Loads a saved dragon.
    #[must_use]
    pub fn from_saved(entity_type: EntityType, load: EntityBaseLoad) -> (r: EnderDragonEntity)
        requires
            load.id <= i32::MAX - SUB_ENTITY_COUNT,
        ensures
            r.wf(),
            r@.in_sync(),
            r@ == fresh(
                entity_type,
                BaseView {
                    id: load.id as int,
                    position: load.position@,
                    velocity: load.velocity@,
                    yaw: load.yaw@,
                    pitch: load.pitch@,
                    no_physics: false,
                    horizontal_collision: false,
                    vertical_collision: false,
                    removed: false,
                },
            ),
    {
        EnderDragonEntity::new_with_base(EntityBase::from_load(load), entity_type)
    }

    fn new_with_base(base: EntityBase, entity_type: EntityType) -> (r: EnderDragonEntity)
        requires
            base.id <= i32::MAX - SUB_ENTITY_COUNT,
        ensures
            r.wf(),
            r@.in_sync(),
            r@ == fresh(entity_type, base@),
    {
        let sub_entities = EnderDragonEntity::create_sub_entities(
            entity_type,
            base.id,
            base.position,
        );
        // The dragon passes through terrain and does its own wall handling.
        let base = EntityBase { no_physics: true, ..base };
        let dragon = EnderDragonEntity {
            base,
            entity_type,
            health: entity_type.max_health.get(),
            max_health: entity_type.max_health.get(),
            mob_flags: 0,
            glowing: false,
            synced_phase: EnderDragonPhase::Hovering.id(),
            sub_entities,
            dragon_death_time: 0,
            sitting_damage_received: Single::whole(0),
            phase_manager: EnderDragonPhaseManager::new(),
            flap_time: Single::whole(0),
            o_flap_time: Single::whole(0),
            y_rot_a: Single::whole(0),
            body_yaw: Single::whole(0),
            in_wall: false,
            fight_origin: BlockPos::zero(),
        };
        proof {
            assert(dragon@.parts =~= fresh_parts(entity_type, base@.id, base@.position));
        }
        dragon
    }

    /// Builds the eight hitboxes, in their order and at their sizes.
    fn create_sub_entities(entity_type: EntityType, parent: i32, position: Vec3) -> (r: Vec<
        EnderDragonPart,
    >)
        requires
            parent <= i32::MAX - SUB_ENTITY_COUNT,
        ensures
            r@.map_values(|part: EnderDragonPart| part@) == fresh_parts(
                entity_type,
                parent as int,
                position@,
            ),
    {
        let mut parts: Vec<EnderDragonPart> = Vec::new();
        let mut index: usize = 0;
        while index < SUB_ENTITY_COUNT
            invariant
                index <= SUB_ENTITY_COUNT,
                parent <= i32::MAX - SUB_ENTITY_COUNT,
                parts.len() == index,
                forall|i: int|
                    #![trigger parts[i]]
                    0 <= i < index ==> parts[i]@ == fresh_parts(
                        entity_type,
                        parent as int,
                        position@,
                    )[i],
            decreases SUB_ENTITY_COUNT - index,
        {
            let kind = match index {
                0 => PartKind::Head,
                1 => PartKind::Neck,
                2 => PartKind::Body,
                3 | 4 | 5 => PartKind::Tail,
                _ => PartKind::Wing,
            };
            parts.push(EnderDragonPart::new(entity_type, parent + 1 + index as i32, kind, position));
            index = index + 1;
        }
        proof {
            assert(parts@.map_values(|part: EnderDragonPart| part@) =~= fresh_parts(
                entity_type,
                parent as int,
                position@,
            ));
        }
        parts
    }

    /// The dragon's hitboxes.
    #[must_use]
    pub fn sub_entities(&self) -> (r: &Vec<EnderDragonPart>)
        ensures
            *r == self.sub_entities,
    {
        &self.sub_entities
    }

    /// The entities that belong to the dragon: its hitboxes.
    #[must_use]
    pub fn parts(&self) -> (r: &Vec<EnderDragonPart>)
        ensures
            *r == self.sub_entities,
    {
        &self.sub_entities
    }

    /// The head, the only hitbox that takes full damage.
    #[must_use]
    pub fn head(&self) -> (r: EnderDragonPart)
        requires
            self.wf(),
        ensures
            r == self.sub_entities[HEAD as int],
            r.id == self.base.id + 1,
            r.kind == PartKind::Head,
    {
        proof {
            assert(self@.parts[HEAD as int] == self.sub_entities[HEAD as int]@);
        }
        self.sub_entities[HEAD]
    }

    /// How far the death animation has run.
    #[must_use]
    pub fn dragon_death_time(&self) -> (r: i32)
        ensures
            r == self@.death_time,
    {
        self.dragon_death_time
    }

    /// The dragon's phase machine.
    #[must_use]
    pub fn phase_manager(&self) -> (r: &EnderDragonPhaseManager)
        ensures
            *r == self.phase_manager,
    {
        &self.phase_manager
    }

    /// Publishes a phase to watching clients. This alone switches no phase.
    pub fn set_synced_phase(&mut self, phase: EnderDragonPhase)
        ensures
            final(self)@ == (DragonView { synced_phase: phase.number(), ..old(self)@ }),
            *final(self) == (EnderDragonEntity {
                synced_phase: final(self).synced_phase,
                ..*old(self)
            }),
            old(self).wf() ==> final(self).wf(),
    {
        self.synced_phase = phase.id();
    }

    /// The phase id currently published to clients.
    #[must_use]
    pub fn synced_phase(&self) -> (r: i32)
        ensures
            r == self@.synced_phase,
    {
        self.synced_phase
    }

    /// How many end crystals are still feeding the dragon: none are known, as
    /// there is no fight.
    #[must_use]
    pub fn alive_crystals(&self) -> (r: Option<i32>)
        ensures
            r is None,
    {
        None
    }

    /// The arena center this dragon belongs to.
    #[must_use]
    pub fn fight_origin(&self) -> (r: BlockPos)
        ensures
            r == self@.fight_origin,
    {
        self.fight_origin
    }

    /// Sets the arena center.
    pub fn set_fight_origin(&mut self, origin: BlockPos)
        ensures
            final(self)@ == (DragonView { fight_origin: origin, ..old(self)@ }),
    {
        self.fight_origin = origin;
    }

    /// Switches the phase: the old one is told that it ends, clients learn of the
    /// new one, and it is told that it begins.
    pub fn set_phase<H: DragonHost>(&mut self, host: &mut Watched<H>, phase: EnderDragonPhase)
        ensures
            final(self)@ == old(self)@.with_phase(phase),
            final(host).extends(*old(host), switch_calls(old(self)@, phase)),
            old(self).wf() ==> final(self).wf(),
            old(self)@.in_sync() ==> final(self)@.in_sync(),
    {
        let before = self.phase_manager.current;
        if phase != before {
            if before != EnderDragonPhase::Dying {
                host.end(self, before);
            }
            self.phase_manager.current = phase;
            self.set_synced_phase(phase);
            if phase == EnderDragonPhase::Dying {
                self.phase_manager.death.begin();
            } else {
                host.begin(self, phase);
            }
        }
        proof {
            assert(host.log() =~= old(host).log() + switch_calls::<H>(old(self)@, phase));
        }
    }

    /// The dragon's health.
    pub fn get_health(&self) -> (r: Single)
        ensures
            r == self.health,
    {
        self.health
    }

    /// The upper end of the dragon's health.
    pub fn get_max_health(&self) -> (r: Single)
        ensures
            r == self.max_health,
    {
        self.max_health
    }

    /// Sets the dragon's health, between zero and its upper end.
    pub fn set_health(&mut self, health: Single)
        requires
            old(self).wf(),
        ensures
            final(self)@ == old(self)@.with_health(health@),
            final(self).wf(),
    {
        self.health = health.held(Single::whole(0), self.max_health);
    }

    /// Whether the dragon's health is used up.
    pub fn is_dead_or_dying(&self) -> (r: bool)
        ensures
            r == self@.dead(),
    {
        self.health.at_most(Single::whole(0))
    }

    /// Turns a killing blow into the flight to the podium. A perched dragon
    /// simply dies.
    pub fn handle_killing_blow<H: DragonHost>(&mut self, host: &mut Watched<H>)
        requires
            old(self).wf(),
        ensures
            final(self)@ == old(self)@.struck(),
            final(host).extends(*old(host), struck_calls(old(self)@)),
            final(self).wf(),
            old(self)@.in_sync() ==> final(self)@.in_sync(),
    {
        proof {
            host::lemma_uncalled(*host);
        }
        if self.is_dead_or_dying() && !self.phase_manager.current.is_sitting() {
            self.set_health(Single::whole(1));
            self.set_phase(host, EnderDragonPhase::Dying);
        }
    }

    /// One tick of the death animation: the dragon and its hitboxes drift upward,
    /// and at the end it is gone.
    pub fn tick_death(&mut self, mob_drops: bool) -> (r: DeathTick)
        requires
            old(self).dragon_death_time < i32::MAX,
        ensures
            final(self)@ == old(self)@.death_ticked(),
            r == death_tick(old(self).dragon_death_time + 1, mob_drops),
            old(self).wf() ==> final(self).wf(),
    {
        let ghost before = *self;
        self.dragon_death_time = self.dragon_death_time + 1;
        let time = self.dragon_death_time;
        let nowhere = Double::whole(0);
        let lift = Vec3 { x: nowhere, y: Single::ratio(1, 10).widened(), z: nowhere };
        self.base.position = self.base.position.plus(lift);
        let ghost at_loop = *self;
        let count = self.sub_entities.len();
        let mut index: usize = 0;
        while index < count
            invariant
                index <= count,
                count == before.sub_entities.len(),
                self.sub_entities.len() == count,
                lift@ == drift(),
                forall|i: int|
                    #![trigger self.sub_entities[i]]
                    0 <= i < count ==> self.sub_entities[i]@ == if i < index {
                        PartView {
                            position: before.sub_entities[i]@.position.plus(drift()),
                            ..before.sub_entities[i]@
                        }
                    } else {
                        before.sub_entities[i]@
                    },
                *self == (EnderDragonEntity {
                    sub_entities: self.sub_entities,
                    base: self.base,
                    dragon_death_time: self.dragon_death_time,
                    ..before
                }),
                self.base == at_loop.base,
                self.dragon_death_time == at_loop.dragon_death_time,
            decreases count - index,
        {
            let part = self.sub_entities[index];
            let moved = EnderDragonPart { position: part.position.plus(lift), ..part };
            self.sub_entities.set(index, moved);
            index = index + 1;
        }
        if time == DEATH_DURATION {
            self.base.removed = true;
        }
        proof {
            assert(self@.parts =~= before@.death_ticked().parts);
        }
        DeathTick {
            trickle: mob_drops && time > EXPERIENCE_FREE_TICKS && time % EXPERIENCE_PERIOD == 0,
            last: mob_drops && time == DEATH_DURATION,
            removed: time == DEATH_DURATION,
        }
    }

    /// Removes the dragon on the spot, without the animation.
    pub fn kill(&mut self)
        ensures
            final(self)@ == (DragonView {
                base: BaseView { removed: true, ..old(self)@.base },
                ..old(self)@
            }),
    {
        self.base.removed = true;
    }

    /// The kind of entity the dragon is.
    pub fn entity_type(&self) -> (r: EntityType)
        ensures
            r == self.entity_type,
    {
        self.entity_type
    }

    /// The dragon's size, which no pose changes.
    pub fn dimensions_for_pose(&self) -> (r: EntityDimensions)
        ensures
            r == self.entity_type.dimensions,
    {
        self.entity_type.dimensions
    }

    /// The dragon's scale, which nothing changes.
    pub fn get_scale(&self) -> (r: Single)
        ensures
            r@ == model::whole(Format::Binary32, 1),
    {
        Single::whole(1)
    }

    /// How loud the dragon is.
    pub fn sound_volume(&self) -> (r: Single)
        ensures
            r@ == model::whole(Format::Binary32, 5),
    {
        Single::whole(5)
    }

    /// What the dragon's sounds count as.
    pub fn sound_source(&self) -> (r: SoundSource)
        ensures
            r == SoundSource::Hostile,
    {
        SoundSource::Hostile
    }

    /// The sound of the dragon being hurt.
    pub fn hurt_sound(&self) -> (r: Option<SoundEvent>)
        ensures
            r == Some(SoundEvent::EnderDragonHurt),
    {
        Some(SoundEvent::EnderDragonHurt)
    }

    /// The sound the dragon makes on its own.
    pub fn ambient_sound(&self) -> (r: Option<SoundEvent>)
        ensures
            r == Some(SoundEvent::EnderDragonAmbient),
    {
        Some(SoundEvent::EnderDragonAmbient)
    }

    /// The dragon itself is no target; its hitboxes are.
    pub fn is_pickable(&self) -> (r: bool)
        ensures
            !r,
    {
        false
    }

    /// The dragon refuses every effect, and stays as it is.
    pub fn add_mob_effect(&mut self) -> (r: bool)
        ensures
            !r,
            *final(self) == *old(self),
    {
        false
    }

    /// The dragon attacks what can be seen as an enemy.
    pub fn can_attack(&self, can_be_seen_as_enemy: bool) -> (r: bool)
        ensures
            r == can_be_seen_as_enemy,
    {
        can_be_seen_as_enemy
    }

    /// The dragon's mob flags.
    pub fn mob_flags(&self) -> (r: i8)
        ensures
            r == self.mob_flags,
    {
        self.mob_flags
    }

    /// Sets the dragon's mob flags.
    pub fn set_mob_flags(&mut self, flags: i8)
        ensures
            final(self)@ == (DragonView { mob_flags: flags as int, ..old(self)@ }),
    {
        self.mob_flags = flags;
    }

    /// Takes over whether the dragon's effects make it glow, where they have
    /// changed; a glowing tag keeps it aglow all the same.
    pub fn update_dirty_mob_effect_entity_data(
        &mut self,
        effects_glow: Option<bool>,
        has_glowing_tag: bool,
    )
        ensures
            final(self)@ == (DragonView {
                glowing: match effects_glow {
                    Some(glow) => has_glowing_tag || glow,
                    None => old(self)@.glowing,
                },
                ..old(self)@
            }),
    {
        match effects_glow {
            Some(glow) => {
                self.glowing = has_glowing_tag || glow;
            },
            None => {},
        }
    }
}

} // verus!

//! The damage the dragon takes.

use crate::dragon;
use crate::dragon::{DragonView, EnderDragonEntity, BODY, HEAD};
use crate::float::model;
use crate::float::model::{Datum, Format};
use crate::float::single::Single;
use crate::host;
use crate::host::{DragonHost, HostCall, Hurt, Watched};
use crate::part::EnderDragonPart;
use crate::phase::EnderDragonPhase;
use vstd::prelude::*;

verus! {

/// Where damage comes from.
#[derive(Clone, Copy, Debug)]
pub struct DamageSource {
    /// Whether the damage type is one of those that always hurt dragons.
    pub always_hurts_ender_dragons: bool,
    /// The entity behind the damage.
    pub causing_entity_id: Option<i32>,
}

/// The damage a hit deals: in full to the head, and to any other hitbox a quarter
/// of it and up to one point on top.
pub open spec fn dealt(damage: Datum, to_head: bool) -> Datum {
    if to_head {
        damage
    } else {
        model::plus(
            Format::Binary32,
            model::over(Format::Binary32, damage, model::whole(Format::Binary32, 4)),
            damage.lesser(model::whole(Format::Binary32, 1)),
        )
    }
}

/// Whether damage is too little to count.
pub open spec fn negligible(damage: Datum) -> bool {
    damage.less(model::ratio(Format::Binary32, 1, 100))
}

/// What the world answers on who is behind a hit.
pub struct SourceAnswers<H: DragonHost> {
    pub entity: Option<H::Entity>,
    pub player: bool,
}

/// Whether a source may hurt the dragon: it is of a type that always does, or the
/// world holds the entity behind it, and that is a player.
pub open spec fn damageable_by<H: DragonHost>(
    source: DamageSource,
    answers: SourceAnswers<H>,
) -> bool {
    source.always_hurts_ender_dragons || source.causing_entity_id is Some && answers.entity is Some
        && answers.player
}

/// What is asked of the world on who is behind a hit.
pub open spec fn source_calls<H: DragonHost>(
    source: DamageSource,
    answers: SourceAnswers<H>,
) -> Seq<HostCall<H>> {
    match source.causing_entity_id {
        Some(id) if !source.always_hurts_ender_dragons => {
            let looked_up = seq![HostCall::GetEntityById { id, answer: answers.entity }];
            match answers.entity {
                Some(entity) => looked_up.push(
                    HostCall::IsPlayer { entity, answer: answers.player },
                ),
                None => looked_up,
            }
        },
        _ => Seq::empty(),
    }
}

impl DragonView {
    /// Whether a hitbox is the dragon's head: it bears the head's id.
    pub open spec fn is_head(self, part: EnderDragonPart) -> bool {
        part.id == self.parts[HEAD as int].id
    }

    /// The damage a perched dragon takes before it leaves.
    pub open spec fn sitting_allowance(self) -> Datum {
        model::times(Format::Binary32, model::ratio(Format::Binary32, 1, 4), self.max_health)
    }

    /// Whether further damage drives the perched dragon off: it has then taken more
    /// than a quarter of its full health.
    pub open spec fn dislodged_by(self, taken: Datum) -> bool {
        !model::plus(Format::Binary32, self.sitting_damage, taken).at_most(
            self.sitting_allowance(),
        )
    }

    /// The dragon with its count of damage on the perch started over.
    pub open spec fn with_clean_slate(self) -> DragonView {
        DragonView { sitting_damage: dragon::nought(), ..self }
    }

    /// The perched dragon after damage: it is counted, and where it is too much,
    /// the count starts over and the dragon takes off.
    pub open spec fn seated(self, taken: Datum) -> DragonView {
        if self.dislodged_by(taken) {
            self.with_clean_slate().with_phase(EnderDragonPhase::Takeoff)
        } else {
            DragonView {
                sitting_damage: model::plus(Format::Binary32, self.sitting_damage, taken),
                ..self
            }
        }
    }

    /// The dragon with what a hurt left it with.
    pub open spec fn hurt_by(self, hurt: Hurt) -> DragonView {
        self.with_velocity(hurt.velocity@).with_health(hurt.health@)
    }

    /// The damage a hurt did in the end.
    pub open spec fn taken(self, hurt: Hurt) -> Datum {
        model::minus(Format::Binary32, self.health, self.hurt_by(hurt).struck().health)
    }

    /// The dragon after a hit, by what the hurt left it with.
    pub open spec fn hit(self, hurt: Hurt) -> DragonView {
        let after = self.hurt_by(hurt).struck();
        if self.phase.sits() {
            after.seated(self.taken(hurt))
        } else {
            after
        }
    }
}

/// What the phases are told when a perched dragon takes damage.
pub open spec fn seated_calls<H: DragonHost>(before: DragonView, taken: Datum) -> Seq<HostCall<H>> {
    if before.dislodged_by(taken) {
        dragon::switch_calls(before.with_clean_slate(), EnderDragonPhase::Takeoff)
    } else {
        Seq::empty()
    }
}

/// What the phases are told after a hit.
pub open spec fn hit_calls<H: DragonHost>(before: DragonView, hurt: Hurt) -> Seq<HostCall<H>> {
    let struck = dragon::struck_calls(before.hurt_by(hurt));
    if before.phase.sits() {
        struck + seated_calls(before.hurt_by(hurt).struck(), before.taken(hurt))
    } else {
        struck
    }
}

/// What the world and the phases answer while a hit lands.
pub struct HitAnswers<H: DragonHost> {
    /// What the phase lets through.
    pub through: Single,
    /// Who is behind the hit.
    pub source: SourceAnswers<H>,
    /// What the hurt leaves the dragon with.
    pub hurt: Hurt,
}

/// How a hit on a hitbox turns out.
pub open spec fn hit_outcome<H: DragonHost>(
    before: DragonView,
    to_head: bool,
    source: DamageSource,
    answers: HitAnswers<H>,
) -> (bool, DragonView) {
    if before.phase == EnderDragonPhase::Dying || negligible(dealt(answers.through@, to_head)) {
        (false, before)
    } else if damageable_by(source, answers.source) {
        (true, before.hit(answers.hurt))
    } else {
        (true, before)
    }
}

/// What is asked while a hit lands: what the phase lets through, and unless that
/// is too little, who is behind the hit. The dragon is hurt once, where the source
/// may hurt it, and not at all otherwise.
pub open spec fn landing_calls<H: DragonHost>(
    before: DragonView,
    to_head: bool,
    source: DamageSource,
    damage: Datum,
    answers: HitAnswers<H>,
) -> Seq<HostCall<H>> {
    let amount = dealt(answers.through@, to_head);
    let asked = seq![
        HostCall::OnHurt { phase: before.phase, source, damage, answer: answers.through },
    ];
    let hurt = seq![
        HostCall::DefaultHurtServer {
            dragon: before,
            source,
            damage: amount,
            answer: answers.hurt,
        },
    ];
    if before.phase == EnderDragonPhase::Dying {
        Seq::empty()
    } else if negligible(amount) {
        asked
    } else if !damageable_by(source, answers.source) {
        asked + source_calls(source, answers.source)
    } else {
        asked + source_calls(source, answers.source) + hurt + hit_calls(before, answers.hurt)
    }
}

impl EnderDragonEntity {
    /// The damage a hit deals to the head, or to any other hitbox.
    pub fn dealt_damage(damage: Single, to_head: bool) -> (r: Single)
        ensures
            r@ == dealt(damage@, to_head),
    {
        if to_head {
            damage
        } else {
            damage.over(Single::whole(4)).plus(damage.lesser(Single::whole(1)))
        }
    }

    /// Applies damage routed through one of the dragon's hitboxes.
    ///
    /// Everything but the head takes a quarter of the damage plus a flat point,
    /// which is what makes aiming for the head worthwhile.
    ///
    /// The dragon reports a hit as handled even when it ignores the damage, so an
    /// arrow from a dispenser still lands and simply does nothing.
    pub fn hurt_part<H: DragonHost>(
        &mut self,
        host: &mut Watched<H>,
        part: EnderDragonPart,
        source: &DamageSource,
        damage: Single,
    ) -> (r: bool)
        requires
            old(self).wf(),
        ensures
            final(self).wf(),
            old(self)@.in_sync() ==> final(self)@.in_sync(),
            exists|answers: HitAnswers<H>|
                {
                    &&& #[trigger] final(host).extends(
                        *old(host),
                        landing_calls(
                            old(self)@,
                            old(self)@.is_head(part),
                            *source,
                            damage@,
                            answers,
                        ),
                    )
                    &&& (r, final(self)@) == hit_outcome(
                        old(self)@,
                        old(self)@.is_head(part),
                        *source,
                        answers,
                    )
                },
    {
        let ghost before = self@;
        let ghost start = *host;
        let ghost unhurt = Hurt { health: self.health, velocity: self.base.velocity };
        let ghost unasked: SourceAnswers<H> = SourceAnswers { entity: None, player: false };
        let phase = self.phase_manager.current;
        let to_head = part.id == self.head().id;
        proof {
            assert(self@.parts[HEAD as int] == self.sub_entities[HEAD as int]@);
            assert(to_head == before.is_head(part));
        }
        if phase == EnderDragonPhase::Dying {
            proof {
                host::lemma_uncalled(start);
                let answers = HitAnswers { through: damage, source: unasked, hurt: unhurt };
                assert(host.extends(
                    start,
                    landing_calls(before, to_head, *source, damage@, answers),
                ));
            }
            return false;
        }
        let through = host.on_hurt(phase, source, damage);
        let ghost asked = seq![
            HostCall::<H>::OnHurt {
                phase: before.phase,
                source: *source,
                damage: damage@,
                answer: through,
            },
        ];
        proof {
            assert(host.log() =~= start.log() + asked);
            assert(host.extends(start, asked));
        }
        let amount = EnderDragonEntity::dealt_damage(through, to_head);
        if amount.less(Single::ratio(1, 100)) {
            proof {
                let answers = HitAnswers { through, source: unasked, hurt: unhurt };
                assert(host.extends(
                    start,
                    landing_calls(before, to_head, *source, damage@, answers),
                ));
            }
            return false;
        }
        let ghost heard = *host;
        let damageable = EnderDragonEntity::is_damageable_by(host, source);
        let ghost behind = choose|behind: SourceAnswers<H>|
            {
                &&& damageable == damageable_by(*source, behind)
                &&& #[trigger] host.extends(heard, source_calls(*source, behind))
            };
        let ghost named = asked + source_calls(*source, behind);
        proof {
            host::lemma_extends(start, heard, *host, asked, source_calls(*source, behind));
        }
        if !damageable {
            proof {
                let answers = HitAnswers { through, source: behind, hurt: unhurt };
                assert(host.extends(
                    start,
                    landing_calls(before, to_head, *source, damage@, answers),
                ));
            }
            return true;
        }
        let ghost judged = *host;
        let hurt = host.default_hurt_server(self, source, amount);
        let ghost blow = seq![
            HostCall::<H>::DefaultHurtServer {
                dragon: before,
                source: *source,
                damage: amount@,
                answer: hurt,
            },
        ];
        let ghost dealt_out = *host;
        proof {
            assert(host.log() =~= judged.log() + blow);
            assert(host.extends(judged, blow));
            host::lemma_extends(start, judged, *host, named, blow);
        }
        self.take_hit(host, hurt);
        proof {
            host::lemma_extends(start, dealt_out, *host, named + blow, hit_calls(before, hurt));
            let answers = HitAnswers { through, source: behind, hurt };
            assert(host.extends(start, landing_calls(before, to_head, *source, damage@, answers)));
        }
        true
    }

    /// Whether a damage source is allowed to hurt the dragon at all: only players
    /// and the explosion-shaped damage types are, which is what stops the dragon
    /// being whittled down by fire, drowning or a stray mob.
    pub fn is_damageable_by<H: DragonHost>(
        host: &mut Watched<H>,
        source: &DamageSource,
    ) -> (r: bool)
        ensures
            exists|answers: SourceAnswers<H>|
                {
                    &&& r == damageable_by(*source, answers)
                    &&& #[trigger] final(host).extends(*old(host), source_calls(*source, answers))
                },
    {
        let ghost start = *host;
        proof {
            host::lemma_uncalled(start);
        }
        let ghost unasked: SourceAnswers<H> = SourceAnswers { entity: None, player: false };
        if source.always_hurts_ender_dragons {
            proof {
                assert(host.extends(start, source_calls(*source, unasked)));
            }
            return true;
        }
        match source.causing_entity_id {
            Some(id) => {
                let entity = host.get_entity_by_id(id);
                let player = match &entity {
                    Some(found) => host.is_player(found),
                    None => false,
                };
                proof {
                    let answers = SourceAnswers { entity, player };
                    assert(host.log() =~= start.log() + source_calls(*source, answers));
                    assert(host.extends(start, source_calls(*source, answers)));
                }
                player
            },
            None => {
                proof {
                    assert(host.extends(start, source_calls(*source, unasked)));
                }
                false
            },
        }
    }

    /// Takes over what a hurt left, with all that follows from it.
    pub fn take_hit<H: DragonHost>(&mut self, host: &mut Watched<H>, hurt: Hurt)
        requires
            old(self).wf(),
        ensures
            final(self).wf(),
            old(self)@.in_sync() ==> final(self)@.in_sync(),
            final(self)@ == old(self)@.hit(hurt),
            final(host).extends(*old(host), hit_calls(old(self)@, hurt)),
    {
        let ghost before = self@;
        let ghost start = *host;
        let sitting = self.phase_manager.current.is_sitting();
        let health_before = self.get_health();
        self.base.velocity = hurt.velocity;
        self.set_health(hurt.health);
        self.handle_killing_blow(host);
        let ghost struck = *host;
        if sitting {
            let taken = health_before.minus(self.get_health());
            self.accumulate_sitting_damage(host, taken);
            proof {
                host::lemma_extends(
                    start,
                    struck,
                    *host,
                    dragon::struck_calls(before.hurt_by(hurt)),
                    seated_calls(before.hurt_by(hurt).struck(), taken@),
                );
            }
        }
    }

    /// Tracks damage taken while perched, and takes off once enough has landed.
    pub fn accumulate_sitting_damage<H: DragonHost>(
        &mut self,
        host: &mut Watched<H>,
        taken: Single,
    )
        requires
            old(self).wf(),
        ensures
            final(self).wf(),
            old(self)@.in_sync() ==> final(self)@.in_sync(),
            final(self)@ == old(self)@.seated(taken@),
            final(host).extends(*old(host), seated_calls(old(self)@, taken@)),
    {
        proof {
            host::lemma_uncalled(*host);
        }
        let received = self.sitting_damage_received.plus(taken);
        self.sitting_damage_received = received;
        if received.at_most(Single::ratio(1, 4).times(self.get_max_health())) {
            return;
        }
        self.sitting_damage_received = Single::whole(0);
        self.set_phase(host, EnderDragonPhase::Takeoff);
    }

    /// A direct hit goes to the body, so that it is scaled like any other that is
    /// not to the head.
    pub fn hurt_server<H: DragonHost>(
        &mut self,
        host: &mut Watched<H>,
        source: &DamageSource,
        amount: Single,
    ) -> (r: bool)
        requires
            old(self).wf(),
        ensures
            final(self).wf(),
            old(self)@.in_sync() ==> final(self)@.in_sync(),
            exists|answers: HitAnswers<H>|
                {
                    &&& #[trigger] final(host).extends(
                        *old(host),
                        landing_calls(old(self)@, false, *source, amount@, answers),
                    )
                    &&& (r, final(self)@) == hit_outcome(old(self)@, false, *source, answers)
                },
    {
        proof {
            assert(self@.parts[BODY as int] == self.sub_entities[BODY as int]@);
        }
        let body = self.sub_entities[BODY];
        self.hurt_part(host, body, source, amount)
    }
}

} // verus!

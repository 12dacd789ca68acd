use vstd::prelude::*;
use crate::components::{EntityId, Position};
use crate::colors::{DAMAGE_FG, LIT_BG};
use crate::effects::{name_of, EffectsView, NameEntry, ParticleRequest, TurnEffects};
use crate::map::{idx_of, GameMap};
use crate::outside::{cp437_glyph, to_cp437};
use vstd::string::StringExecFns;

verus! {

/// Springs the traps that entities step onto.
pub struct TriggerSystem {}

/// An entity with an entry trigger: the damage it inflicts, if any, and whether it
/// fires only once.
#[derive(Clone, Copy, PartialEq, Eq, Structural, Debug)]
pub struct TriggerInfo {
    pub entity: EntityId,
    pub damage: Option<i32>,
    pub single_activation: bool,
}

/// An entity that moved this turn, and where it now stands.
#[derive(Clone, Copy, PartialEq, Eq, Structural, Debug)]
pub struct MovedEntity {
    pub entity: EntityId,
    pub pos: Position,
}

/// What springing traps does, in order.
#[derive(Clone, Copy, PartialEq, Eq, Structural, Debug)]
pub enum TriggerEvent {
    /// The trap fires: it is announced (by name, if it has one) and revealed.
    Triggered { trap: EntityId },
    /// The trap hurts the entity that stepped on it, with a particle at `(x, y)`.
    Damage { target: EntityId, amount: i32, x: i32, y: i32 },
    /// The trap is used up and is removed once all traps are done.
    Remove { trap: EntityId },
}

/// The first trigger listed for entity `e`, or `None`.
pub open spec fn trigger_of(triggers: Seq<TriggerInfo>, e: EntityId) -> Option<TriggerInfo>
    decreases triggers.len(),
{
    if triggers.len() == 0 {
        None
    } else if triggers[0].entity == e {
        Some(triggers[0])
    } else {
        trigger_of(triggers.drop_first(), e)
    }
}

/// What happens when `mover` at `pos` shares a tile with `other`.
pub open spec fn contact_events(triggers: Seq<TriggerInfo>, mover: MovedEntity, other: EntityId) -> Seq<TriggerEvent> {
    if mover.entity == other {
        seq![]
    } else {
        match trigger_of(triggers, other) {
            None => seq![],
            Some(t) => {
                seq![TriggerEvent::Triggered { trap: other }]
                    + (match t.damage {
                        Some(d) => seq![TriggerEvent::Damage { target: mover.entity, amount: d, x: mover.pos.x, y: mover.pos.y }],
                        None => seq![],
                    })
                    + (if t.single_activation { seq![TriggerEvent::Remove { trap: other }] } else { seq![] })
            },
        }
    }
}

/// What happens with the first `k` entities on the mover's tile.
pub open spec fn tile_events(triggers: Seq<TriggerInfo>, mover: MovedEntity, content: Seq<EntityId>, k: int) -> Seq<TriggerEvent>
    decreases k,
{
    if k <= 0 {
        seq![]
    } else {
        tile_events(triggers, mover, content, k - 1) + contact_events(triggers, mover, content[k - 1])
    }
}

/// What happens for the first `k` movers.
pub open spec fn trigger_events(triggers: Seq<TriggerInfo>, content: Seq<Seq<EntityId>>, width: int, moved: Seq<MovedEntity>, k: int) -> Seq<TriggerEvent>
    decreases k,
{
    if k <= 0 {
        seq![]
    } else {
        let m = moved[k - 1];
        let c = content[idx_of(width, m.pos.x as int, m.pos.y as int)];
        trigger_events(triggers, content, width, moved, k - 1) + tile_events(triggers, m, c, c.len() as int)
    }
}

/// Looks up the trigger of entity `e`.
fn find_trigger(triggers: &Vec<TriggerInfo>, e: EntityId) -> (r: Option<TriggerInfo>)
    ensures
        r == trigger_of(triggers@, e),
{
    let mut i: usize = 0;
    assert(triggers@.subrange(0, triggers@.len() as int) =~= triggers@);
    while i < triggers.len()
        invariant
            i <= triggers@.len(),
            trigger_of(triggers@, e) == trigger_of(triggers@.subrange(i as int, triggers@.len() as int), e),
        decreases triggers@.len() - i,
    {
        let ghost rest = triggers@.subrange(i as int, triggers@.len() as int);
        assert(rest.drop_first() =~= triggers@.subrange(i + 1, triggers@.len() as int));
        if triggers[i].entity.index == e.index && triggers[i].entity.generation == e.generation {
            return Some(triggers[i]);
        }
        i += 1;
    }
    None
}

impl TriggerSystem {
    /// For each entity that moved, in order, and each other entity on its tile that
    /// has an entry trigger: the trap fires, hurts the mover if it inflicts damage, and
    /// is removed if it fires only once.
    pub fn run(&mut self, map: &GameMap, moved: &Vec<MovedEntity>, triggers: &Vec<TriggerInfo>) -> (events: Vec<TriggerEvent>)
        requires
            map.wf(),
            forall|k: int| 0 <= k < moved@.len() ==> 0 <= (#[trigger] moved@[k]).pos.x && 0 <= moved@[k].pos.y
                && idx_of(map.width as int, moved@[k].pos.x as int, moved@[k].pos.y as int) < map.tiles@.len(),
        ensures
            events@ == trigger_events(triggers@, map@.content, map.width as int, moved@, moved@.len() as int),
    {
        let mut events: Vec<TriggerEvent> = Vec::new();
        let mut k: usize = 0;
        while k < moved.len()
            invariant
                map.wf(),
                k <= moved@.len(),
                forall|j: int| 0 <= j < moved@.len() ==> 0 <= (#[trigger] moved@[j]).pos.x && 0 <= moved@[j].pos.y
                    && idx_of(map.width as int, moved@[j].pos.x as int, moved@[j].pos.y as int) < map.tiles@.len(),
                events@ == trigger_events(triggers@, map@.content, map.width as int, moved@, k as int),
            decreases moved@.len() - k,
        {
            let mover = moved[k];
            assert(0 <= moved@[k as int].pos.x);
            proof { assert(map.tiles@.len() == map.tiles.len()); }
            let idx = map.xy_idx(mover.pos.x, mover.pos.y);
            let ghost before = events@;
            let ghost c = map@.content[idx as int];
            assert(map.tile_content@[idx as int]@ == c);
            let mut j: usize = 0;
            while j < map.tile_content[idx].len()
                invariant
                    map.wf(),
                    idx < map.tile_content@.len(),
                    c == map.tile_content@[idx as int]@,
                    j <= c.len(),
                    events@ == before + tile_events(triggers@, mover, c, j as int),
                decreases c.len() - j,
            {
                let other = map.tile_content[idx][j];
                let ghost pre = events@;
                if !(mover.entity.index == other.index && mover.entity.generation == other.generation) {
                    match find_trigger(triggers, other) {
                        None => {}
                        Some(t) => {
                            events.push(TriggerEvent::Triggered { trap: other });
                            match t.damage {
                                Some(d) => {
                                    events.push(TriggerEvent::Damage { target: mover.entity, amount: d, x: mover.pos.x, y: mover.pos.y });
                                }
                                None => {}
                            }
                            if t.single_activation {
                                events.push(TriggerEvent::Remove { trap: other });
                            }
                        }
                    }
                }
                assert(events@ =~= pre + contact_events(triggers@, mover, other));
                j += 1;
            }
            k += 1;
        }
        events
    }
}


/// An entity never springs itself, and something that is not a trap never fires.
pub proof fn law_no_self_trigger(triggers: Seq<TriggerInfo>, mover: MovedEntity, other: EntityId)
    ensures
        other == mover.entity ==> contact_events(triggers, mover, other).len() == 0,
        trigger_of(triggers, other) is None ==> contact_events(triggers, mover, other).len() == 0,
{
}


/// The log line of a trap that fires.
pub open spec fn trigger_message(name: Seq<char>) -> Seq<char> {
    name + " triggers!"@
}

/// What one trap event leaves in the world: a fired trap is announced by name (when
/// it has one) and is no longer hidden; damage is recorded for the entity that stepped
/// on the trap, with a red `☼` particle for 200 milliseconds where it stands; a used-up
/// trap is deleted.
pub open spec fn trigger_effect(fx: EffectsView, names: Seq<NameEntry>, ev: TriggerEvent) -> EffectsView {
    match ev {
        TriggerEvent::Triggered { trap } => EffectsView {
            log: match name_of(names, trap) {
                Some(n) => fx.log.push(trigger_message(n)),
                None => fx.log,
            },
            unhidden: fx.unhidden.push(trap),
            ..fx
        },
        TriggerEvent::Damage { target, amount, x, y } => EffectsView {
            suffer_damage: fx.suffer_damage.push((target, amount)),
            particles: fx.particles.push(ParticleRequest { x, y, fg: DAMAGE_FG, bg: LIT_BG, glyph: cp437_glyph('☼'), lifetime_ms: 200 }),
            ..fx
        },
        TriggerEvent::Remove { trap } => EffectsView { deleted: fx.deleted.push(trap), ..fx },
    }
}

/// What the first `k` trap events leave in the world, in order.
pub open spec fn trigger_effects(fx: EffectsView, names: Seq<NameEntry>, events: Seq<TriggerEvent>, k: int) -> EffectsView
    decreases k,
{
    if k <= 0 {
        fx
    } else {
        trigger_effect(trigger_effects(fx, names, events, k - 1), names, events[k - 1])
    }
}

impl TriggerSystem {
    /// Carries out the trap events in order (see `trigger_effect`), and clears the
    /// list of entities that moved: they have all been dealt with.
    pub fn apply(&mut self, events: &Vec<TriggerEvent>, names: &Vec<NameEntry>, moved: &mut Vec<MovedEntity>, fx: &mut TurnEffects)
        ensures
            final(fx)@ =~= trigger_effects(old(fx)@, names@, events@, events@.len() as int),
            final(moved)@.len() == 0,
    {
        let mut k: usize = 0;
        while k < events.len()
            invariant
                k <= events@.len(),
                fx@ =~= trigger_effects(old(fx)@, names@, events@, k as int),
            decreases events@.len() - k,
        {
            let ghost before = fx@;
            match events[k] {
                TriggerEvent::Triggered { trap } => {
                    match crate::effects::find_name(names, trap) {
                        Some(name) => {
                            let mut msg = name.clone();
                            msg.append(" triggers!");
                            fx.log.push(msg);
                        }
                        None => {}
                    }
                    fx.unhidden.push(trap);
                }
                TriggerEvent::Damage { target, amount, x, y } => {
                    fx.suffer_damage.push((target, amount));
                    fx.particles.push(ParticleRequest { x, y, fg: DAMAGE_FG, bg: LIT_BG, glyph: to_cp437('☼'), lifetime_ms: 200 });
                }
                TriggerEvent::Remove { trap } => {
                    fx.deleted.push(trap);
                }
            }
            assert(fx@.log =~= trigger_effect(before, names@, events@[k as int]).log);
            k += 1;
        }
        moved.clear();
    }
}

} // verus!

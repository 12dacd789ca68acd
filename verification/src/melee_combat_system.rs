use vstd::prelude::*;
use crate::components::EntityId;
use crate::effects::{append_decimal, decimal, find_name, name_of, EffectsView, NameEntry, TurnEffects};
use vstd::string::StringExecFns;

verus! {

/// Resolves the melee attacks that entities want to make this turn.
pub struct MeleeCombatSystem {}

/// Hit points and fighting strength of an entity.
#[derive(Clone, Copy, PartialEq, Eq, Structural, Debug)]
pub struct CombatStats {
    pub max_hp: i32,
    pub hp: i32,
    pub defense: i32,
    pub power: i32,
}

/// An entity with combat stats, and whether it has a name.
#[derive(Clone, Copy, PartialEq, Eq, Structural, Debug)]
pub struct Fighter {
    pub entity: EntityId,
    pub stats: CombatStats,
    pub named: bool,
}

/// A named entity with combat stats that wants to attack `target`.
#[derive(Clone, Copy, PartialEq, Eq, Structural, Debug)]
pub struct MeleeIntent {
    pub attacker: EntityId,
    pub stats: CombatStats,
    pub target: EntityId,
}

/// An equipped item's bonus (to power or to defence) and who wears it.
#[derive(Clone, Copy, PartialEq, Eq, Structural, Debug)]
pub struct EquippedBonus {
    pub owner: EntityId,
    pub amount: i32,
}

/// What an attack came to: no damage, or a hit for `damage` hit points.
#[derive(Clone, Copy, PartialEq, Eq, Structural, Debug)]
pub enum MeleeEvent {
    Unable { attacker: EntityId, target: EntityId },
    Hit { attacker: EntityId, target: EntityId, damage: i32 },
}

/// The sum of the bonuses of items worn by `owner`.
pub open spec fn bonus_sum(bonuses: Seq<EquippedBonus>, owner: EntityId) -> int
    decreases bonuses.len(),
{
    if bonuses.len() == 0 {
        0
    } else {
        bonus_sum(bonuses.drop_last(), owner)
            + (if bonuses.last().owner == owner { bonuses.last().amount as int } else { 0int })
    }
}

/// Every running total of `owner`'s bonuses fits in an `i32`.
pub open spec fn bonus_sums_fit(bonuses: Seq<EquippedBonus>, owner: EntityId) -> bool {
    forall|k: int| 0 <= k <= bonuses.len() ==> i32::MIN <= #[trigger] bonus_sum(bonuses.take(k), owner) <= i32::MAX
}

/// Index of the first fighter that is `e`.
pub open spec fn fighter_index(fighters: Seq<Fighter>, e: EntityId) -> int {
    choose|i: int| 0 <= i < fighters.len() && fighters[i].entity == e
        && forall|j: int| 0 <= j < i ==> fighters[j].entity != e
}

pub open spec fn has_fighter(fighters: Seq<Fighter>, e: EntityId) -> bool {
    exists|i: int| 0 <= i < fighters.len() && #[trigger] fighters[i].entity == e
}

/// The damage of an attack: attacker power plus its bonuses, less target defence plus
/// its bonuses, never below zero.
pub open spec fn melee_damage(att: CombatStats, off: int, target: CombatStats, def: int) -> int {
    let raw = (att.power + off) - (target.defense + def);
    if raw > 0 { raw } else { 0 }
}

/// What one intent comes to: nothing if the attacker or the target is already down;
/// otherwise a hit, or no damage when the damage is zero.
pub open spec fn intent_events(fighters: Seq<Fighter>, power: Seq<EquippedBonus>, defense: Seq<EquippedBonus>, it: MeleeIntent) -> Seq<MeleeEvent> {
    if it.stats.hp > 0 {
        let t = fighters[fighter_index(fighters, it.target)].stats;
        if t.hp > 0 {
            let d = melee_damage(it.stats, bonus_sum(power, it.attacker), t, bonus_sum(defense, it.target));
            if d == 0 {
                seq![MeleeEvent::Unable { attacker: it.attacker, target: it.target }]
            } else {
                seq![MeleeEvent::Hit { attacker: it.attacker, target: it.target, damage: d as i32 }]
            }
        } else {
            seq![]
        }
    } else {
        seq![]
    }
}

/// The events of the first `k` intents, in order.
pub open spec fn melee_events(fighters: Seq<Fighter>, power: Seq<EquippedBonus>, defense: Seq<EquippedBonus>, intents: Seq<MeleeIntent>, k: int) -> Seq<MeleeEvent>
    decreases k,
{
    if k <= 0 {
        seq![]
    } else {
        melee_events(fighters, power, defense, intents, k - 1) + intent_events(fighters, power, defense, intents[k - 1])
    }
}

/// Resolving an intent stays inside `i32`, and the target it needs (and the
/// target's name) exist.
pub open spec fn intent_computable(fighters: Seq<Fighter>, power: Seq<EquippedBonus>, defense: Seq<EquippedBonus>, it: MeleeIntent) -> bool {
    it.stats.hp > 0 ==> {
        &&& bonus_sums_fit(power, it.attacker)
        &&& has_fighter(fighters, it.target)
        &&& ({
            let t = fighters[fighter_index(fighters, it.target)];
            t.stats.hp > 0 ==> {
                &&& t.named
                &&& bonus_sums_fit(defense, it.target)
                &&& i32::MIN <= it.stats.power + bonus_sum(power, it.attacker) <= i32::MAX
                &&& i32::MIN <= t.stats.defense + bonus_sum(defense, it.target) <= i32::MAX
                &&& i32::MIN <= (it.stats.power + bonus_sum(power, it.attacker)) - (t.stats.defense + bonus_sum(defense, it.target)) <= i32::MAX
            }
        })
    }
}

/// Sums the bonuses of items worn by `owner`.
pub fn sum_bonuses(bonuses: &Vec<EquippedBonus>, owner: EntityId) -> (s: i32)
    requires
        bonus_sums_fit(bonuses@, owner),
    ensures
        s as int == bonus_sum(bonuses@, owner),
{
    let mut total: i32 = 0;
    let mut i: usize = 0;
    while i < bonuses.len()
        invariant
            i <= bonuses@.len(),
            bonus_sums_fit(bonuses@, owner),
            total as int == bonus_sum(bonuses@.take(i as int), owner),
        decreases bonuses@.len() - i,
    {
        assert(bonuses@.take(i + 1).drop_last() =~= bonuses@.take(i as int));
        assert(i32::MIN <= bonus_sum(bonuses@.take(i + 1), owner) <= i32::MAX);
        if bonuses[i].owner.index == owner.index && bonuses[i].owner.generation == owner.generation {
            total += bonuses[i].amount;
        }
        i += 1;
    }
    assert(bonuses@.take(bonuses@.len() as int) =~= bonuses@);
    total
}

/// Looks up the first fighter that is `e`.
fn find_fighter(fighters: &Vec<Fighter>, e: EntityId) -> (i: usize)
    requires
        has_fighter(fighters@, e),
    ensures
        i as int == fighter_index(fighters@, e),
        i < fighters@.len(),
{
    let mut i: usize = 0;
    while i < fighters.len()
        invariant
            i <= fighters@.len(),
            has_fighter(fighters@, e),
            forall|j: int| 0 <= j < i ==> fighters@[j].entity != e,
        decreases fighters@.len() - i,
    {
        if fighters[i].entity.index == e.index && fighters[i].entity.generation == e.generation {
            assert(fighters@[i as int].entity == e);
            assert(0 <= i < fighters@.len() && fighters@[i as int].entity == e
                && forall|j: int| 0 <= j < i ==> fighters@[j].entity != e);
            return i;
        }
        i += 1;
    }
    assert(false);
    0
}

impl MeleeCombatSystem {
    /// Resolves the intents in order. For each one whose attacker still stands and
    /// whose target still stands, the damage is the attacker's power plus the bonuses
    /// of what it wears, less the target's defence plus the bonuses of what the target
    /// wears, and at least zero: a zero gives `Unable`, anything else `Hit`.
    pub fn run(&mut self, fighters: &Vec<Fighter>, intents: &Vec<MeleeIntent>, power: &Vec<EquippedBonus>, defense: &Vec<EquippedBonus>) -> (events: Vec<MeleeEvent>)
        requires
            forall|i: int| 0 <= i < intents@.len() ==> intent_computable(fighters@, power@, defense@, #[trigger] intents@[i]),
        ensures
            events@ == melee_events(fighters@, power@, defense@, intents@, intents@.len() as int),
    {
        let mut events: Vec<MeleeEvent> = Vec::new();
        let mut k: usize = 0;
        while k < intents.len()
            invariant
                k <= intents@.len(),
                forall|i: int| 0 <= i < intents@.len() ==> intent_computable(fighters@, power@, defense@, #[trigger] intents@[i]),
                events@ == melee_events(fighters@, power@, defense@, intents@, k as int),
            decreases intents@.len() - k,
        {
            let it = intents[k];
            assert(intent_computable(fighters@, power@, defense@, intents@[k as int]));
            let ghost pre = events@;
            if it.stats.hp > 0 {
                let offensive_bonus = sum_bonuses(power, it.attacker);
                let ti = find_fighter(fighters, it.target);
                let target_stats = fighters[ti].stats;
                if target_stats.hp > 0 {
                    let defensive_bonus = sum_bonuses(defense, it.target);
                    let raw = (it.stats.power + offensive_bonus) - (target_stats.defense + defensive_bonus);
                    let damage = if raw > 0 { raw } else { 0 };
                    if damage == 0 {
                        events.push(MeleeEvent::Unable { attacker: it.attacker, target: it.target });
                    } else {
                        events.push(MeleeEvent::Hit { attacker: it.attacker, target: it.target, damage });
                    }
                }
            }
            assert(events@ =~= pre + intent_events(fighters@, power@, defense@, it));
            k += 1;
        }
        events
    }
}


/// An attack never heals: damage is at least zero, a hit always does some damage, and
/// an attack does nothing when either side is already down.
pub proof fn law_melee_damage_sound(fighters: Seq<Fighter>, power: Seq<EquippedBonus>, defense: Seq<EquippedBonus>, it: MeleeIntent)
    requires
        intent_computable(fighters, power, defense, it),
    ensures
        forall|off: int, def: int, t: CombatStats| melee_damage(it.stats, off, t, def) >= 0,
        forall|i: int| 0 <= i < intent_events(fighters, power, defense, it).len() ==>
            (#[trigger] intent_events(fighters, power, defense, it)[i] matches MeleeEvent::Hit { damage, .. } ==> damage > 0),
        it.stats.hp <= 0 ==> intent_events(fighters, power, defense, it).len() == 0,
        intent_events(fighters, power, defense, it).len() <= 1,
{
}


/// The log line of a hit.
pub open spec fn hit_message(attacker: Seq<char>, target: Seq<char>, damage: nat) -> Seq<char> {
    attacker + " hits "@ + target + ", for "@ + decimal(damage) + " hp."@
}

/// The log line of an attack that does no damage.
pub open spec fn unable_message(attacker: Seq<char>, target: Seq<char>) -> Seq<char> {
    attacker + " is unable to hurt "@ + target
}

/// Both sides of a melee event have names, and a hit's damage is not negative.
pub open spec fn melee_event_named(names: Seq<NameEntry>, ev: MeleeEvent) -> bool {
    match ev {
        MeleeEvent::Unable { attacker, target } => name_of(names, attacker) is Some && name_of(names, target) is Some,
        MeleeEvent::Hit { attacker, target, damage } => name_of(names, attacker) is Some && name_of(names, target) is Some && damage >= 0,
    }
}

/// What one melee event leaves in the world: a hit is logged with both names and the
/// damage, and the damage is recorded for the target; an attack without damage is
/// logged and records nothing.
pub open spec fn melee_effect(fx: EffectsView, names: Seq<NameEntry>, ev: MeleeEvent) -> EffectsView {
    match ev {
        MeleeEvent::Hit { attacker, target, damage } => EffectsView {
            log: fx.log.push(hit_message(name_of(names, attacker)->0, name_of(names, target)->0, damage as nat)),
            suffer_damage: fx.suffer_damage.push((target, damage)),
            ..fx
        },
        MeleeEvent::Unable { attacker, target } => EffectsView {
            log: fx.log.push(unable_message(name_of(names, attacker)->0, name_of(names, target)->0)),
            ..fx
        },
    }
}

/// What the first `k` melee events leave in the world, in order.
pub open spec fn melee_effects(fx: EffectsView, names: Seq<NameEntry>, events: Seq<MeleeEvent>, k: int) -> EffectsView
    decreases k,
{
    if k <= 0 {
        fx
    } else {
        melee_effect(melee_effects(fx, names, events, k - 1), names, events[k - 1])
    }
}

impl MeleeCombatSystem {
    /// Carries out the melee events in order (see `melee_effect`), and clears the
    /// wishes to attack: they have all been dealt with.
    pub fn apply(&mut self, events: &Vec<MeleeEvent>, names: &Vec<NameEntry>, intents: &mut Vec<MeleeIntent>, fx: &mut TurnEffects)
        requires
            forall|i: int| 0 <= i < events@.len() ==> melee_event_named(names@, #[trigger] events@[i]),
        ensures
            final(fx)@ =~= melee_effects(old(fx)@, names@, events@, events@.len() as int),
            final(intents)@.len() == 0,
    {
        let mut k: usize = 0;
        while k < events.len()
            invariant
                k <= events@.len(),
                forall|i: int| 0 <= i < events@.len() ==> melee_event_named(names@, #[trigger] events@[i]),
                fx@ =~= melee_effects(old(fx)@, names@, events@, k as int),
            decreases events@.len() - k,
        {
            let ghost before = fx@;
            assert(melee_event_named(names@, events@[k as int]));
            match events[k] {
                MeleeEvent::Hit { attacker, target, damage } => {
                    let na = find_name(names, attacker).unwrap();
                    let nt = find_name(names, target).unwrap();
                    let mut msg = na.clone();
                    msg.append(" hits ");
                    msg.append(nt.as_str());
                    msg.append(", for ");
                    append_decimal(&mut msg, damage as u32);
                    msg.append(" hp.");
                    fx.log.push(msg);
                    fx.suffer_damage.push((target, damage));
                }
                MeleeEvent::Unable { attacker, target } => {
                    let na = find_name(names, attacker).unwrap();
                    let nt = find_name(names, target).unwrap();
                    let mut msg = na.clone();
                    msg.append(" is unable to hurt ");
                    msg.append(nt.as_str());
                    fx.log.push(msg);
                }
            }
            assert(fx@.log =~= melee_effect(before, names@, events@[k as int]).log);
            k += 1;
        }
        intents.clear();
    }
}

} // verus!

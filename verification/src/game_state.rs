use vstd::prelude::*;
use crate::components::EntityId;
use crate::effects::{EffectsView, TurnEffects};
use vstd::string::StringExecFns;

verus! {

/// What decides whether an entity survives a change of level: whether it is the
/// player, and who carries or wears it.
#[derive(Clone, Copy, PartialEq, Eq, Structural, Debug)]
pub struct EntityRecord {
    pub entity: EntityId,
    pub is_player: bool,
    pub backpack_owner: Option<EntityId>,
    pub equipped_owner: Option<EntityId>,
}

/// An entity stays on a change of level when it is the player, is in the player's
/// backpack, or is worn by the player.
pub open spec fn kept_on_level_change(r: EntityRecord, player: EntityId) -> bool {
    r.is_player || r.backpack_owner == Some(player) || r.equipped_owner == Some(player)
}

/// The entities to delete when the player descends: all the others, in order.
pub open spec fn removed_on_level_change(records: Seq<EntityRecord>, player: EntityId) -> Seq<EntityId> {
    records.filter(|r: EntityRecord| !kept_on_level_change(r, player)).map_values(|r: EntityRecord| r.entity)
}

fn same_entity(a: EntityId, b: EntityId) -> (r: bool)
    ensures
        r == (a == b),
{
    a.index == b.index && a.generation == b.generation
}

/// Lists the entities that do not come along to the next level: everything but the
/// player and what the player carries or wears.
pub fn entities_to_remove_on_level_change(records: &Vec<EntityRecord>, player: EntityId) -> (to_delete: Vec<EntityId>)
    ensures
        to_delete@ == removed_on_level_change(records@, player),
{
    let mut to_delete: Vec<EntityId> = Vec::new();
    let mut i: usize = 0;
    while i < records.len()
        invariant
            i <= records@.len(),
            to_delete@ == removed_on_level_change(records@.subrange(0, i as int), player),
        decreases records@.len() - i,
    {
        let r = records[i];
        let mut should_delete = true;
        if r.is_player {
            should_delete = false;
        }
        if let Some(owner) = r.backpack_owner {
            if same_entity(owner, player) {
                should_delete = false;
            }
        }
        if let Some(owner) = r.equipped_owner {
            if same_entity(owner, player) {
                should_delete = false;
            }
        }
        proof {
            reveal(Seq::filter);
            assert(records@.subrange(0, i + 1).drop_last() =~= records@.subrange(0, i as int));
            assert(should_delete == !kept_on_level_change(r, player));
        }
        if should_delete {
            to_delete.push(r.entity);
        }
        assert(to_delete@ =~= removed_on_level_change(records@.subrange(0, i + 1), player));
        i += 1;
    }
    assert(records@.subrange(0, records@.len() as int) =~= records@);
    to_delete
}

/// Half of `v`, rounded toward zero.
pub open spec fn half(v: int) -> int {
    if v >= 0 { v / 2 } else { -((-v) / 2) }
}

/// The player's hit points after descending: at least half the maximum.
pub fn descent_hp(hp: i32, max_hp: i32) -> (r: i32)
    ensures
        r == (if hp >= half(max_hp as int) { hp as int } else { half(max_hp as int) }),
{
    if hp >= max_hp / 2 { hp } else { max_hp / 2 }
}

/// The depth of the level below.
pub fn next_depth(depth: i32) -> (r: i32)
    requires
        depth < i32::MAX,
    ensures
        r == depth + 1,
{
    depth + 1
}


/// The player, and whatever the player carries or wears, always come along to the next
/// level, and everything else is left behind (each entity listed once).
pub proof fn law_player_keeps_belongings(records: Seq<EntityRecord>, player: EntityId, r: EntityRecord)
    requires
        records.contains(r),
        forall|i: int, j: int| 0 <= i < j < records.len() ==> (#[trigger] records[i]).entity != (#[trigger] records[j]).entity,
    ensures
        kept_on_level_change(r, player) <==> !removed_on_level_change(records, player).contains(r.entity),
{
    broadcast use vstd::seq_lib::group_filter_ensures;
    let pred = |x: EntityRecord| !kept_on_level_change(x, player);
    let f = records.filter(pred);
    let k = choose|k: int| 0 <= k < records.len() && records[k] == r;
    if !kept_on_level_change(r, player) {
        assert(f.contains(r));
        let j = choose|j: int| 0 <= j < f.len() && f[j] == r;
        assert(removed_on_level_change(records, player)[j] == r.entity);
    } else {
        let m = removed_on_level_change(records, player);
        if m.contains(r.entity) {
            let j = choose|j: int| 0 <= j < m.len() && m[j] == r.entity;
            assert(m[j] == f[j].entity);
            assert(f.contains(f[j]));
            records.lemma_filter_contains_rev(pred, f[j]);
            records.lemma_filter_pred(pred, j);
            let i = choose|i: int| 0 <= i < records.len() && records[i] == f[j];
            if i < k {
                assert(records[i].entity != records[k].entity);
            } else if k < i {
                assert(records[k].entity != records[i].entity);
            }
        }
    }
}

/// Descending never lowers the player's hit points, and leaves at least half the
/// maximum.
pub proof fn law_descent_heals(hp: int, max_hp: int)
    ensures
        (if hp >= half(max_hp) { hp } else { half(max_hp) }) >= hp,
        (if hp >= half(max_hp) { hp } else { half(max_hp) }) >= half(max_hp),
{
}


/// The log line of a descent.
pub open spec fn descent_message() -> Seq<char> {
    "You descend to the next level, and take a moment to heal."@
}

/// Where the player stands after a descent: the depth of the new level, and the
/// player's hit points.
#[derive(Clone, Copy, PartialEq, Eq, Structural, Debug)]
pub struct Descent {
    pub depth: i32,
    pub hp: i32,
}

/// The player goes down a level: everything that does not come along is deleted (see
/// `removed_on_level_change`), the descent is logged, the depth grows by one, and the
/// player heals to at least half the maximum (see `descent_hp`). The new level itself
/// is generated by the caller for the depth given back.
pub fn goto_next_level(records: &Vec<EntityRecord>, player: EntityId, depth: i32, hp: i32, max_hp: i32, fx: &mut TurnEffects) -> (d: Descent)
    requires
        depth < i32::MAX,
    ensures
        final(fx)@ =~= (EffectsView {
            deleted: old(fx)@.deleted + removed_on_level_change(records@, player),
            log: old(fx)@.log.push(descent_message()),
            ..old(fx)@
        }),
        d.depth == depth + 1,
        d.hp == (if hp >= half(max_hp as int) { hp as int } else { half(max_hp as int) }),
{
    let mut gone = entities_to_remove_on_level_change(records, player);
    fx.deleted.append(&mut gone);
    let mut msg = String::new();
    msg.append("You descend to the next level, and take a moment to heal.");
    fx.log.push(msg);
    Descent { depth: next_depth(depth), hp: descent_hp(hp, max_hp) }
}

} // verus!

use vstd::prelude::*;
use crate::components::{EntityId, Position};
use crate::map::{idx_of, lemma_idx_in_range, GameMap, MapView};
use crate::statemachine::RunState;
use crate::colors::{CONFUSION_FG, LIT_BG};
use crate::effects::ParticleRequest;
use crate::outside::{cp437_glyph, to_cp437};

verus! {

/// Decides what each monster does on the monsters' turn.
pub struct MonsterAI {}

/// What a monster does this turn.
#[derive(Clone, Copy, PartialEq, Eq, Structural, Debug)]
pub enum MonsterAction {
    /// Confused: it loses its turn; `turns_left` is what remains of the confusion,
    /// which ends (`cured`) when fewer than one turn is left; a `?` shows above it
    /// (`particle`).
    Confused { turns_left: i32, cured: bool, particle: ParticleRequest },
    /// Next to the player: it attacks.
    Attack { target: EntityId },
    /// It sees the player: it moves one step along a path towards them.
    Chase,
    /// Nothing to do.
    Idle,
}

/// The player is within one step (straight or diagonal) of `(x, y)`: the Euclidean
/// distance is below 1.5.
pub open spec fn adjacent(x: int, y: int, px: int, py: int) -> bool {
    (x - px) * (x - px) + (y - py) * (y - py) <= 2
}

/// What a monster at `pos`, confused for `confusion` turns if any, does when the
/// player stands at `player_pos` and `sees_player` tells whether the monster sees it.
pub open spec fn monster_action(confusion: Option<i32>, pos: Position, player: EntityId, player_pos: Position, sees_player: bool) -> MonsterAction {
    match confusion {
        Some(turns) => MonsterAction::Confused {
            turns_left: (turns - 1) as i32,
            cured: turns - 1 < 1,
            particle: confusion_particle(pos),
        },
        None => if adjacent(pos.x as int, pos.y as int, player_pos.x as int, player_pos.y as int) {
            MonsterAction::Attack { target: player }
        } else if sees_player {
            MonsterAction::Chase
        } else {
            MonsterAction::Idle
        },
    }
}

/// The `?` shown for 200 milliseconds above a confused monster at `pos`.
pub open spec fn confusion_particle(pos: Position) -> ParticleRequest {
    ParticleRequest { x: pos.x, y: pos.y, fg: CONFUSION_FG, bg: LIT_BG, glyph: cp437_glyph('?'), lifetime_ms: 200 }
}

/// The squared distance as an `i64`, with the differences taken in `i32` as the
/// distance computation does.
fn distance_squared(x: i32, y: i32, px: i32, py: i32) -> (d: i64)
    requires
        -i32::MAX <= x - px <= i32::MAX,
        -i32::MAX <= y - py <= i32::MAX,
    ensures
        d as int == (x - px) * (x - px) + (y - py) * (y - py),
{
    let dx = (if x >= px { x - px } else { px - x }) as i64;
    let dy = (if y >= py { y - py } else { py - y }) as i64;
    assert(dx * dx <= 0x3fff_ffff_0000_0001 && dy * dy <= 0x3fff_ffff_0000_0001) by (nonlinear_arith)
        requires 0 <= dx <= 0x7fff_ffff, 0 <= dy <= 0x7fff_ffff;
    assert(dx * dx == (x - px) * (x - px) && dy * dy == (y - py) * (y - py)) by (nonlinear_arith)
        requires dx == x - px || dx == px - x, dy == y - py || dy == py - y;
    dx * dx + dy * dy
}

impl MonsterAI {
    /// Monsters act only on the monsters' turn.
    pub fn acts_in(rs: RunState) -> (r: bool)
        ensures
            r == (rs == RunState::MonsterTurn),
    {
        match rs {
            RunState::MonsterTurn => true,
            _ => false,
        }
    }

    /// Whether the player's position is among the tiles the monster sees.
    pub fn sees(visible_tiles: &Vec<Position>, player_pos: Position) -> (r: bool)
        ensures
            r == visible_tiles@.contains(player_pos),
    {
        let mut i: usize = 0;
        while i < visible_tiles.len()
            invariant
                i <= visible_tiles@.len(),
                forall|j: int| 0 <= j < i ==> visible_tiles@[j] != player_pos,
            decreases visible_tiles@.len() - i,
        {
            if visible_tiles[i].x == player_pos.x && visible_tiles[i].y == player_pos.y {
                assert(visible_tiles@[i as int] == player_pos);
                return true;
            }
            i += 1;
        }
        false
    }

    /// A monster's decision (see `monster_action`): confusion uses up the turn and shows a
    /// `?` above the monster;
    /// otherwise it attacks a player within one step, chases a player it sees, or idles.
    pub fn decide(&self, confusion: Option<i32>, pos: Position, player: EntityId, player_pos: Position, visible_tiles: &Vec<Position>) -> (a: MonsterAction)
        requires
            confusion matches Some(t) ==> t > i32::MIN,
            confusion is None ==> -i32::MAX <= pos.x - player_pos.x <= i32::MAX,
            confusion is None ==> -i32::MAX <= pos.y - player_pos.y <= i32::MAX,
        ensures
            a == monster_action(confusion, pos, player, player_pos, visible_tiles@.contains(player_pos)),
    {
        match confusion {
            Some(turns) => {
                let left = turns - 1;
                let particle = ParticleRequest { x: pos.x, y: pos.y, fg: CONFUSION_FG, bg: LIT_BG, glyph: to_cp437('?'), lifetime_ms: 200 };
                MonsterAction::Confused { turns_left: left, cured: left < 1, particle }
            }
            None => {
                let d = distance_squared(pos.x, pos.y, player_pos.x, player_pos.y);
                if d <= 2 {
                    MonsterAction::Attack { target: player }
                } else if Self::sees(visible_tiles, player_pos) {
                    MonsterAction::Chase
                } else {
                    MonsterAction::Idle
                }
            }
        }
    }

    /// Moves a chasing monster one step along a found path: when the search succeeded
    /// and the path has a second step, its old tile is unblocked, it moves to that step
    /// and the new tile is blocked. Tells whether it moved.
    pub fn follow_path(map: &mut GameMap, pos: &mut Position, success: bool, steps: &Vec<usize>) -> (moved: bool)
        requires
            old(map).wf(),
            old(map).tiles.len() <= i32::MAX,
            old(map)@.in_bounds(old(pos).x as int, old(pos).y as int),
            success && steps@.len() > 1 ==> steps@[1] < old(map).tiles@.len(),
        ensures
            moved == (success && steps@.len() > 1),
            !moved ==> *final(map) == *old(map) && *final(pos) == *old(pos),
            moved ==> {
                let m0 = old(map)@;
                let next = steps@[1] as int;
                &&& final(pos).x as int == next % m0.width
                &&& final(pos).y as int == next / m0.width
                &&& final(map)@ == (MapView {
                    blocked: m0.blocked.update(idx_of(m0.width, old(pos).x as int, old(pos).y as int), false).update(next, true),
                    ..m0
                })
            },
    {
        if success && steps.len() > 1 {
            let ghost m0 = map@;
            proof {
                lemma_idx_in_range(map.width as int, map.height as int, pos.x as int, pos.y as int);
                assert(map.tiles@.len() == map.tiles.len());
            }
            let mut idx = map.xy_idx(pos.x, pos.y);
            map.blocked.set(idx, false);
            let next = steps[1] as i32;
            pos.x = next % map.width;
            pos.y = next / map.width;
            proof {
                let w = map.width as int;
                let s = next as int;
                assert(0 <= s % w < w && 0 <= s / w && s / w < map.height && s == (s / w) * w + s % w) by (nonlinear_arith)
                    requires w > 0, 0 <= s < w * map.height;
            }
            idx = map.xy_idx(pos.x, pos.y);
            map.blocked.set(idx, true);
            assert(map@.blocked =~= m0.blocked.update(idx_of(m0.width, old(pos).x as int, old(pos).y as int), false).update(steps@[1] as int, true));
            true
        } else {
            false
        }
    }
}


/// A confused monster always loses its turn; a monster attacks only when it is not
/// confused and the player is within one step, and chases only a player it sees and
/// is not next to.
pub proof fn law_monster_attacks_only_adjacent(confusion: Option<i32>, pos: Position, player: EntityId, player_pos: Position, sees_player: bool)
    ensures
        confusion is Some ==> monster_action(confusion, pos, player, player_pos, sees_player) is Confused,
        monster_action(confusion, pos, player, player_pos, sees_player) is Attack ==> confusion is None
            && adjacent(pos.x as int, pos.y as int, player_pos.x as int, player_pos.y as int),
        monster_action(confusion, pos, player, player_pos, sees_player) is Chase ==> confusion is None && sees_player
            && !adjacent(pos.x as int, pos.y as int, player_pos.x as int, player_pos.y as int),
{
}


/// A confused monster loses its turn and one turn of confusion, which ends when at most
/// one turn was left, and a `?` shows where it stands. An unconfused monster attacks
/// whenever the player is within one step of it,
/// straight or diagonally, whether or not it sees the player; one further away
/// chases a player it sees and otherwise idles.
pub proof fn law_monster_next_to_player_attacks(pos: Position, player: EntityId, player_pos: Position, sees_player: bool)
    ensures
        forall|t: i32| #![trigger monster_action(Some(t), pos, player, player_pos, sees_player)]
            t > i32::MIN ==> (monster_action(Some(t), pos, player, player_pos, sees_player) matches MonsterAction::Confused { turns_left, cured, particle }
                && turns_left == t - 1 && (cured <==> t <= 1) && particle.x == pos.x && particle.y == pos.y),
        (-1 <= pos.x - player_pos.x <= 1 && -1 <= pos.y - player_pos.y <= 1)
            ==> monster_action(None, pos, player, player_pos, sees_player) == (MonsterAction::Attack { target: player }),
        !(-1 <= pos.x - player_pos.x <= 1 && -1 <= pos.y - player_pos.y <= 1) && sees_player
            ==> monster_action(None, pos, player, player_pos, sees_player) == MonsterAction::Chase,
        !(-1 <= pos.x - player_pos.x <= 1 && -1 <= pos.y - player_pos.y <= 1) && !sees_player
            ==> monster_action(None, pos, player, player_pos, sees_player) == MonsterAction::Idle,
{
    let dx = pos.x - player_pos.x;
    let dy = pos.y - player_pos.y;
    if -1 <= dx <= 1 && -1 <= dy <= 1 {
        assert(dx * dx <= 1 && dy * dy <= 1) by (nonlinear_arith) requires -1 <= dx <= 1, -1 <= dy <= 1;
    } else {
        assert(dx * dx + dy * dy >= 4) by (nonlinear_arith) requires !(-1 <= dx <= 1 && -1 <= dy <= 1);
    }
}

} // verus!

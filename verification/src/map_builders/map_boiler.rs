use vstd::prelude::*;
use crate::components::Position;
use crate::map::{idx_of, GameMap, MapView, TileType};
use super::{all_revealed, copy_history, find_start, has_start_floor, is_start_position, revealed_snapshot};

verus! {

/// The template every level builder starts from: a map, where the player starts, the
/// depth, the generation snapshots and the spawns.
pub struct MapBoiler {
    pub map: GameMap,
    pub starting_pos: Position,
    pub depth: i32,
    pub history: Vec<GameMap>,
    pub spawn_list: Vec<(usize, String)>,
}

impl MapBoiler {
    /// A fresh level at `new_depth`, start at the origin, no history, no spawns.
    pub fn new(new_depth: i32) -> (b: MapBoiler)
        ensures
            b.map@ == GameMap::fresh_view(new_depth as int),
            b.map.wf(),
            b.starting_pos == (Position { x: 0, y: 0 }),
            b.depth == new_depth,
            b.history@.len() == 0,
            b.spawn_list@.len() == 0,
    {
        MapBoiler {
            map: GameMap::new(new_depth),
            starting_pos: Position { x: 0, y: 0 },
            depth: new_depth,
            history: Vec::new(),
            spawn_list: Vec::new(),
        }
    }

    /// A copy of the level being built.
    pub fn get_map(&self) -> (m: GameMap)
        ensures
            m@ == self.map@,
    {
        self.map.duplicate()
    }

    /// Where the player starts.
    pub fn get_starting_pos(&self) -> (p: Position)
        ensures
            p == self.starting_pos,
    {
        self.starting_pos
    }

    /// A copy of the snapshots taken so far, in order.
    pub fn get_snapshot_history(&self) -> (h: Vec<GameMap>)
        ensures
            h@.len() == self.history@.len(),
            forall|i: int| 0 <= i < h@.len() ==> (#[trigger] h@[i])@ == self.history@[i]@,
    {
        copy_history(&self.history)
    }

    /// The entities to spawn, by tile index and name.
    pub fn get_spawn_list(&self) -> (l: &Vec<(usize, String)>)
        ensures
            l@ == self.spawn_list@,
    {
        &self.spawn_list
    }

    /// Appends a copy of the current map, fully revealed, to the history.
    pub fn take_snapshot(&mut self)
        ensures
            final(self).map == old(self).map,
            final(self).starting_pos == old(self).starting_pos,
            final(self).depth == old(self).depth,
            final(self).history@ == old(self).history@.push(final(self).history@.last()),
            final(self).history@.last()@ == all_revealed(old(self).map@),
    {
        let snapshot = revealed_snapshot(&self.map);
        self.history.push(snapshot);
        assert(self.history@ =~= old(self).history@.push(self.history@.last()));
    }

    /// Walks west from the middle of the map to the first floor tile, makes it the
    /// start, snapshots, and gives its index.
    pub fn place_start(&mut self) -> (start_idx: usize)
        requires
            old(self).map.wf(),
            has_start_floor(old(self).map@),
        ensures
            is_start_position(old(self).map@, final(self).starting_pos),
            start_idx as int == idx_of(old(self).map.width as int, final(self).starting_pos.x as int, final(self).starting_pos.y as int),
            final(self).map == old(self).map,
            final(self).depth == old(self).depth,
            final(self).history@ == old(self).history@.push(final(self).history@.last()),
            final(self).history@.last()@ == all_revealed(old(self).map@),
    {
        let (pos, start_idx) = find_start(&self.map);
        self.starting_pos = pos;
        self.take_snapshot();
        start_idx
    }

    /// Turns the exit tile into the down stairs and snapshots.
    pub fn place_exit(&mut self, exit_tile: usize)
        requires
            exit_tile < old(self).map.tiles@.len(),
        ensures
            final(self).map@ == (MapView {
                tiles: old(self).map@.tiles.update(exit_tile as int, TileType::DownStairs),
                ..old(self).map@
            }),
            final(self).starting_pos == old(self).starting_pos,
            final(self).depth == old(self).depth,
            final(self).history@ == old(self).history@.push(final(self).history@.last()),
            final(self).history@.last()@ == all_revealed(final(self).map@),
    {
        self.map.tiles.set(exit_tile, TileType::DownStairs);
        self.take_snapshot();
    }
}

} // verus!

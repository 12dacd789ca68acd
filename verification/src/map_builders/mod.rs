use vstd::prelude::*;
use bracket_lib::random::RandomNumberGenerator;
use crate::components::Position;
use crate::outside::roll_dice;
use crate::map::{idx_of, lemma_idx_in_range, GameMap, MapView, TileType};

pub mod dla;
pub mod prefab_builder;
pub mod map_border;
pub mod map_boiler;
pub mod voronoi;

verus! {

/// Whether map generation keeps a snapshot of each step for the viewer.
pub const SHOW_MAPGEN_VISUALIZER: bool = true;

/// The level being generated, where the player will start, and the snapshots taken
/// along the way.
pub struct BuilderMap {
    pub map: GameMap,
    pub starting_pos: Option<Position>,
    pub history: Vec<GameMap>,
}

/// The view of a map with every tile revealed and nothing else changed.
pub open spec fn all_revealed(m: MapView) -> MapView {
    MapView { revealed: Seq::new(m.revealed.len(), |i: int| true), ..m }
}

/// A copy of `map` with every tile revealed, as the generation viewer shows it.
pub fn revealed_snapshot(map: &GameMap) -> (snapshot: GameMap)
    ensures
        snapshot@ == all_revealed(map@),
{
    let mut snapshot = map.duplicate();
    let n = snapshot.revealed_tiles.len();
    let mut i: usize = 0;
    assert(map@.revealed =~= Seq::new(0, |k: int| true) + map@.revealed.subrange(0, n as int));
    while i < n
        invariant
            n == snapshot.revealed_tiles@.len(),
            n == map@.revealed.len(),
            i <= n,
            snapshot@ == (MapView {
                revealed: Seq::new(i as nat, |k: int| true) + map@.revealed.subrange(i as int, n as int),
                ..map@
            }),
        decreases n - i,
    {
        snapshot.revealed_tiles.set(i, true);
        assert(snapshot@.revealed =~= Seq::new((i + 1) as nat, |k: int| true) + map@.revealed.subrange(i + 1, n as int));
        i = i + 1;
    }
    assert(snapshot@.revealed =~= Seq::new(n as nat, |k: int| true));
    snapshot
}

/// A floor tile lies in the middle row at or west of the middle column.
pub open spec fn has_start_floor(m: MapView) -> bool {
    exists|x: int| 0 <= x <= m.width / 2 && #[trigger] m.tile_at(x, m.height / 2) == TileType::Floor
}

/// The start found by walking west from the middle of the map to the first floor
/// tile: `p` is on that floor, in the middle row, and no floor lies between it and the
/// middle column.
pub open spec fn is_start_position(m: MapView, p: Position) -> bool {
    &&& p.y == m.height / 2
    &&& 0 <= p.x <= m.width / 2
    &&& m.tile_at(p.x as int, p.y as int) == TileType::Floor
    &&& forall|x: int| p.x < x <= m.width / 2 ==> #[trigger] m.tile_at(x, m.height / 2) != TileType::Floor
}

/// Starts at the middle of the map and steps west until standing on a floor tile;
/// gives that position and its index.
pub fn find_start(map: &GameMap) -> (r: (Position, usize))
    requires
        map.wf(),
        has_start_floor(map@),
    ensures
        is_start_position(map@, r.0),
        r.1 as int == idx_of(map.width as int, r.0.x as int, r.0.y as int),
{
    let mut pos = Position { x: map.width / 2, y: map.height / 2 };
    proof {
        assert(map.width / 2 < map.width && map.height / 2 < map.height);
        lemma_idx_in_range(map.width as int, map.height as int, pos.x as int, pos.y as int);
        assert(map.tiles@.len() == map.tiles.len());
    }
    let mut start_idx = map.xy_idx(pos.x, pos.y);
    while map.tiles[start_idx] != TileType::Floor
        invariant
            map.wf(),
            has_start_floor(map@),
            map.tiles@.len() == map.tiles.len(),
            pos.y == map.height / 2,
            0 <= pos.x <= map.width / 2,
            start_idx as int == idx_of(map.width as int, pos.x as int, pos.y as int),
            start_idx < map.tiles.len(),
            forall|x: int| pos.x < x <= map.width / 2 ==> #[trigger] map@.tile_at(x, map.height / 2) != TileType::Floor,
        decreases pos.x,
    {
        if pos.x == 0 {
            let ghost w = choose|x: int| 0 <= x <= map.width / 2 && #[trigger] map@.tile_at(x, map.height / 2) == TileType::Floor;
            assert(map@.tile_at(0, map.height / 2) != TileType::Floor);
            assert(false);
        }
        pos.x -= 1;
        proof {
            lemma_idx_in_range(map.width as int, map.height as int, pos.x as int, pos.y as int);
        }
        start_idx = map.xy_idx(pos.x, pos.y);
    }
    (pos, start_idx)
}

/// A copy of a generation history, snapshot for snapshot.
pub fn copy_history(history: &Vec<GameMap>) -> (copy: Vec<GameMap>)
    ensures
        copy@.len() == history@.len(),
        forall|i: int| 0 <= i < copy@.len() ==> (#[trigger] copy@[i])@ == history@[i]@,
{
    let mut copy: Vec<GameMap> = Vec::new();
    let mut i: usize = 0;
    while i < history.len()
        invariant
            i <= history@.len(),
            copy@.len() == i,
            forall|k: int| 0 <= k < i ==> (#[trigger] copy@[k])@ == history@[k]@,
        decreases history@.len() - i,
    {
        copy.push(history[i].duplicate());
        i += 1;
    }
    copy
}

impl BuilderMap {
    /// Appends to the history a copy of the current map with every tile revealed.
    pub fn take_snapshot(&mut self)
        ensures
            final(self).map == old(self).map,
            final(self).starting_pos == old(self).starting_pos,
            final(self).history@.len() == old(self).history@.len() + 1,
            forall|i: int| 0 <= i < old(self).history@.len() ==> final(self).history@[i] == old(self).history@[i],
            final(self).history@.last()@ == all_revealed(old(self).map@),
    {
        if SHOW_MAPGEN_VISUALIZER {
            let snapshot = revealed_snapshot(&self.map);
            self.history.push(snapshot);
        }
    }
}

/// The level generators a new level can be made with.
#[derive(Clone, Copy, PartialEq, Eq, Structural, Debug)]
pub enum BuilderKind {
    BspDungeon,
    BspInterior,
    CellularAutomata,
    DrunkardsOpenArea,
    DrunkardsOpenHalls,
    DrunkardsWindingPassages,
    DrunkardsFatPassages,
    DrunkardsFearfulSymmetry,
    Maze,
    DlaWalkInwards,
    DlaWalkOutwards,
    DlaCentralAttractor,
    DlaInsectoid,
    VoronoiPythagoras,
    VoronoiManhattan,
    VoronoiChebyshev,
    WaveformTestMap,
    SimpleMap,
}

/// The generator chosen for a new level: which one, for what depth, and whether its
/// result is fed through wave-function collapse.
#[derive(Clone, Copy, PartialEq, Eq, Structural, Debug)]
pub struct BuilderChoice {
    pub kind: BuilderKind,
    pub new_depth: i32,
    pub derive_waveform: bool,
}

/// The generator for a roll of 1 to 18; any other roll gives the simple map.
pub open spec fn builder_for_roll(roll: int) -> BuilderKind {
    if roll == 1 { BuilderKind::BspDungeon }
    else if roll == 2 { BuilderKind::BspInterior }
    else if roll == 3 { BuilderKind::CellularAutomata }
    else if roll == 4 { BuilderKind::DrunkardsOpenArea }
    else if roll == 5 { BuilderKind::DrunkardsOpenHalls }
    else if roll == 6 { BuilderKind::DrunkardsWindingPassages }
    else if roll == 7 { BuilderKind::DrunkardsFatPassages }
    else if roll == 8 { BuilderKind::DrunkardsFearfulSymmetry }
    else if roll == 9 { BuilderKind::Maze }
    else if roll == 10 { BuilderKind::DlaWalkInwards }
    else if roll == 11 { BuilderKind::DlaWalkOutwards }
    else if roll == 12 { BuilderKind::DlaCentralAttractor }
    else if roll == 13 { BuilderKind::DlaInsectoid }
    else if roll == 14 { BuilderKind::VoronoiPythagoras }
    else if roll == 15 { BuilderKind::VoronoiManhattan }
    else if roll == 16 { BuilderKind::VoronoiChebyshev }
    else if roll == 17 { BuilderKind::WaveformTestMap }
    else { BuilderKind::SimpleMap }
}

/// Maps a die roll to the generator it selects (see `builder_for_roll`).
pub fn builder_kind(roll: i32) -> (k: BuilderKind)
    ensures
        k == builder_for_roll(roll as int),
{
    match roll {
        1 => BuilderKind::BspDungeon,
        2 => BuilderKind::BspInterior,
        3 => BuilderKind::CellularAutomata,
        4 => BuilderKind::DrunkardsOpenArea,
        5 => BuilderKind::DrunkardsOpenHalls,
        6 => BuilderKind::DrunkardsWindingPassages,
        7 => BuilderKind::DrunkardsFatPassages,
        8 => BuilderKind::DrunkardsFearfulSymmetry,
        9 => BuilderKind::Maze,
        10 => BuilderKind::DlaWalkInwards,
        11 => BuilderKind::DlaWalkOutwards,
        12 => BuilderKind::DlaCentralAttractor,
        13 => BuilderKind::DlaInsectoid,
        14 => BuilderKind::VoronoiPythagoras,
        15 => BuilderKind::VoronoiManhattan,
        16 => BuilderKind::VoronoiChebyshev,
        17 => BuilderKind::WaveformTestMap,
        _ => BuilderKind::SimpleMap,
    }
}

/// The generator a pair of rolls selects: the first roll picks the generator (see
/// `builder_for_roll`), and a second roll of 1 feeds its result through wave-function
/// collapse.
pub open spec fn builder_choice(new_depth: i32, kind_roll: int, wfc_roll: int) -> BuilderChoice {
    BuilderChoice { kind: builder_for_roll(kind_roll), new_depth, derive_waveform: wfc_roll == 1 }
}

/// The generator for the two rolls (see `builder_choice`).
pub fn choose_builder(new_depth: i32, kind_roll: i32, wfc_roll: i32) -> (c: BuilderChoice)
    ensures
        c == builder_choice(new_depth, kind_roll as int, wfc_roll as int),
{
    BuilderChoice { kind: builder_kind(kind_roll), new_depth, derive_waveform: wfc_roll == 1 }
}

/// Chooses the generator for a new level: a roll of 1d18 picks one of 18 generators,
/// and a following roll of 1d3 that comes up 1 (one chance in three) has its result
/// reworked by wave-function collapse (see `builder_choice`).
pub fn random_builder(new_depth: i32, rng: &mut RandomNumberGenerator) -> (c: BuilderChoice)
    ensures
        exists|kind_roll: int, wfc_roll: int| 1 <= kind_roll <= 18 && 1 <= wfc_roll <= 3
            && c == #[trigger] builder_choice(new_depth, kind_roll, wfc_roll),
{
    let kind_roll = roll_dice(rng, 1, 18);
    let wfc_roll = roll_dice(rng, 1, 3);
    choose_builder(new_depth, kind_roll, wfc_roll)
}


/// Walking west from the middle always ends on the same tile: the start is unique.
pub proof fn law_start_position_unique(m: MapView, p: Position, q: Position)
    requires
        is_start_position(m, p),
        is_start_position(m, q),
    ensures
        p == q,
{
    if p.x < q.x {
        assert(m.tile_at(q.x as int, m.height / 2) != TileType::Floor);
    } else if q.x < p.x {
        assert(m.tile_at(p.x as int, m.height / 2) != TileType::Floor);
    }
}

} // verus!
